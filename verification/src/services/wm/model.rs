//! The window manager's state and its mathematical model.

use crate::ipc::ProcessId;
use vstd::prelude::*;

verus! {

pub const TITLE_H: i32 = 30;
pub const DOCK_H: i32 = 50;
pub const RESIZE_BORDER: i32 = 10;
pub const MIN_SIZE: i32 = 100;

#[derive(Clone, Copy, PartialEq, Eq, Structural, Debug)]
pub enum WindowState {
    Normal,
    Maximized,
    Minimized,
}

#[derive(Clone, Copy, PartialEq, Eq, Structural, Debug)]
pub enum ResizeEdge {
    NoEdge,
    Right,
    Bottom,
    BottomRight,
}

/// One window on the desktop; terminal windows also keep their text.
pub struct Window {
    pub id: u32,
    pub x: i32,
    pub y: i32,
    pub w: i32,
    pub h: i32,
    pub title: String,
    pub owner: ProcessId,
    pub state: WindowState,
    pub restore_rect: Option<(i32, i32, i32, i32)>,
    pub terminal_lines: Vec<String>,
    pub terminal_wrapped_lines: Vec<String>,
    pub terminal_wrap_width: i32,
    pub terminal_needs_wrap: bool,
    pub terminal_is_pager: bool,
    pub terminal_pager_title: Option<String>,
    pub terminal_scroll_y: usize,
}

/// A window as a mathematical value.
pub struct WinModel {
    pub id: u32,
    pub x: i32,
    pub y: i32,
    pub w: i32,
    pub h: i32,
    pub title: Seq<char>,
    pub owner: ProcessId,
    pub state: WindowState,
    pub restore_rect: Option<(i32, i32, i32, i32)>,
    pub lines: Seq<Seq<char>>,
    pub wrapped: Seq<Seq<char>>,
    pub wrap_width: i32,
    pub needs_wrap: bool,
    pub is_pager: bool,
    pub pager_title: Option<Seq<char>>,
    pub scroll_y: usize,
}

pub open spec fn strings_view(v: Seq<String>) -> Seq<Seq<char>> {
    v.map_values(|s: String| s@)
}

pub open spec fn opt_string_view(o: Option<String>) -> Option<Seq<char>> {
    match o {
        Some(s) => Some(s@),
        None => None,
    }
}

impl Window {
    pub open spec fn view(&self) -> WinModel {
        WinModel {
            id: self.id,
            x: self.x,
            y: self.y,
            w: self.w,
            h: self.h,
            title: self.title@,
            owner: self.owner,
            state: self.state,
            restore_rect: self.restore_rect,
            lines: strings_view(self.terminal_lines@),
            wrapped: strings_view(self.terminal_wrapped_lines@),
            wrap_width: self.terminal_wrap_width,
            needs_wrap: self.terminal_needs_wrap,
            is_pager: self.terminal_is_pager,
            pager_title: opt_string_view(self.terminal_pager_title),
            scroll_y: self.terminal_scroll_y,
        }
    }
}

/// The window manager.
pub struct WindowManager {
    pub pid: ProcessId,
    pub display_server_pid: ProcessId,
    pub windows: Vec<Window>,
    pub mouse_x: i32,
    pub mouse_y: i32,
    pub drag_window_index: Option<usize>,
    pub drag_offset_x: i32,
    pub drag_offset_y: i32,
    pub resize_window_index: Option<usize>,
    pub resize_edge: ResizeEdge,
    pub tick_count: u32,
    pub screen_w: i32,
    pub screen_h: i32,
    pub start_menu_open: bool,
    pub last_click_time: u64,
    pub last_time_str: String,
    pub last_half_second: u64,
    pub mouse_is_down: bool,
}

/// The window manager as a mathematical value.
pub struct WmModel {
    pub pid: ProcessId,
    pub display_server_pid: ProcessId,
    pub windows: Seq<WinModel>,
    pub mouse_x: i32,
    pub mouse_y: i32,
    pub drag_window_index: Option<usize>,
    pub drag_offset_x: i32,
    pub drag_offset_y: i32,
    pub resize_window_index: Option<usize>,
    pub resize_edge: ResizeEdge,
    pub tick_count: u32,
    pub screen_w: i32,
    pub screen_h: i32,
    pub start_menu_open: bool,
    pub last_click_time: u64,
    pub last_time_str: Seq<char>,
    pub last_half_second: u64,
    pub mouse_is_down: bool,
}


/// A window manager for an empty desktop of the given size, drawing
/// through `display_server_pid`, as it starts.
pub open spec fn wm_initial(pid: ProcessId, display_server_pid: ProcessId, screen_w: i32, screen_h: i32) -> WmModel {
    WmModel {
        pid,
        display_server_pid,
        windows: Seq::empty(),
        mouse_x: 0,
        mouse_y: 0,
        drag_window_index: None,
        drag_offset_x: 0,
        drag_offset_y: 0,
        resize_window_index: None,
        resize_edge: ResizeEdge::NoEdge,
        tick_count: 0,
        screen_w,
        screen_h,
        start_menu_open: false,
        last_click_time: 0,
        last_time_str: Seq::empty(),
        last_half_second: 0,
        mouse_is_down: false,
    }
}

impl WindowManager {
    pub open spec fn view(&self) -> WmModel {
        WmModel {
            pid: self.pid,
            display_server_pid: self.display_server_pid,
            windows: self.windows@.map_values(|w: Window| w@),
            mouse_x: self.mouse_x,
            mouse_y: self.mouse_y,
            drag_window_index: self.drag_window_index,
            drag_offset_x: self.drag_offset_x,
            drag_offset_y: self.drag_offset_y,
            resize_window_index: self.resize_window_index,
            resize_edge: self.resize_edge,
            tick_count: self.tick_count,
            screen_w: self.screen_w,
            screen_h: self.screen_h,
            start_menu_open: self.start_menu_open,
            last_click_time: self.last_click_time,
            last_time_str: self.last_time_str@,
            last_half_second: self.last_half_second,
            mouse_is_down: self.mouse_is_down,
        }
    }

    /// A window manager for an empty desktop of the given size, drawing
    /// through `display_server_pid`.
    pub fn new(pid: ProcessId, display_server_pid: ProcessId, screen_w: i32, screen_h: i32) -> (wm: Self)
        ensures
            wm@ == wm_initial(pid, display_server_pid, screen_w, screen_h),
    {
        let wm = Self {
            pid,
            display_server_pid,
            windows: Vec::new(),
            mouse_x: 0,
            mouse_y: 0,
            drag_window_index: None,
            drag_offset_x: 0,
            drag_offset_y: 0,
            resize_window_index: None,
            resize_edge: ResizeEdge::NoEdge,
            tick_count: 0,
            screen_w,
            screen_h,
            start_menu_open: false,
            last_click_time: 0,
            last_time_str: String::new(),
            last_half_second: 0,
            mouse_is_down: false,
        };
        assert(wm@.windows =~= Seq::<WinModel>::empty());
        wm
    }
}

} // verus!
