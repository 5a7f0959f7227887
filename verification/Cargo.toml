[package]
name = "monkeyos"
version = "0.1.0"
edition = "2021"
publish = false

[dependencies]
midly = "*"
base64 = "*"
uu_cat = "*"
uu_echo = "*"
uu_head = "*"
uu_ls = "*"
uu_mkdir = "*"
uu_mv = "*"
uu_pwd = "*"
uu_rm = "*"
uu_sort = "*"
uu_tail = "*"
uu_touch = "*"
uu_wc = "*"
