pub mod display;
pub mod input;

use vstd::prelude::*;

use crate::abi::{PdSyscallFn, PdSyscalls, PD_ABI_VERSION};

verus! {

/// The addresses of the kernel's syscall entry points, in table order.
///
/// The syscalls themselves are `extern "C"` functions of the kernel binary;
/// their addresses are taken where they are defined and handed in here.
#[derive(Clone, Copy)]
pub struct SyscallEntryPoints {
    pub display_clear: PdSyscallFn,
    pub display_set_pixel: PdSyscallFn,
    pub display_draw_rect: PdSyscallFn,
    pub display_fill_rect: PdSyscallFn,
    pub display_draw_bitmap: PdSyscallFn,
    pub display_draw_text: PdSyscallFn,
    pub display_refresh: PdSyscallFn,
    pub display_set_rotation: PdSyscallFn,
    pub display_width: PdSyscallFn,
    pub display_height: PdSyscallFn,
    pub input_get_buttons: PdSyscallFn,
    pub input_wait_button: PdSyscallFn,
    pub input_get_battery_pct: PdSyscallFn,
    pub fs_open: PdSyscallFn,
    pub fs_close: PdSyscallFn,
    pub fs_read: PdSyscallFn,
    pub fs_write: PdSyscallFn,
    pub fs_seek: PdSyscallFn,
    pub fs_tell: PdSyscallFn,
    pub fs_eof: PdSyscallFn,
    pub fs_mkdir: PdSyscallFn,
    pub fs_remove: PdSyscallFn,
    pub fs_opendir: PdSyscallFn,
    pub fs_readdir: PdSyscallFn,
    pub fs_closedir: PdSyscallFn,
    pub fs_stat: PdSyscallFn,
    pub net_wifi_connect: PdSyscallFn,
    pub net_wifi_disconnect: PdSyscallFn,
    pub net_wifi_status: PdSyscallFn,
    pub net_http_get: PdSyscallFn,
    pub net_http_post: PdSyscallFn,
    pub net_http_begin: PdSyscallFn,
    pub net_http_set_header: PdSyscallFn,
    pub net_http_send: PdSyscallFn,
    pub net_http_read: PdSyscallFn,
    pub net_http_status_code: PdSyscallFn,
    pub net_http_end: PdSyscallFn,
    pub sys_sleep_ms: PdSyscallFn,
    pub sys_millis: PdSyscallFn,
    pub sys_exit: PdSyscallFn,
    pub sys_log: PdSyscallFn,
    pub sys_get_free_heap: PdSyscallFn,
    pub mem_alloc: PdSyscallFn,
    pub mem_free: PdSyscallFn,
    pub mem_realloc: PdSyscallFn,
    pub font_load: PdSyscallFn,
    pub font_free: PdSyscallFn,
    pub font_text_width: PdSyscallFn,
    pub font_line_height: PdSyscallFn,
}

/// Whether `t` is the table for heap `[heap_start, heap_start + heap_size)` and
/// entry points `e`: ABI version 1, kernel version 0, every entry point in its
/// slot, and reboot and Wi-Fi release/acquire not provided (0).
pub open spec fn table_matches(t: PdSyscalls, heap_start: u32, heap_size: u32, e: SyscallEntryPoints) -> bool {
    &&& t.abi_version == PD_ABI_VERSION
    &&& t.kernel_version == 0
    &&& t.app_heap_start == heap_start
    &&& t.app_heap_size == heap_size
    &&& t.display_clear == e.display_clear
    &&& t.display_set_pixel == e.display_set_pixel
    &&& t.display_draw_rect == e.display_draw_rect
    &&& t.display_fill_rect == e.display_fill_rect
    &&& t.display_draw_bitmap == e.display_draw_bitmap
    &&& t.display_draw_text == e.display_draw_text
    &&& t.display_refresh == e.display_refresh
    &&& t.display_set_rotation == e.display_set_rotation
    &&& t.display_width == e.display_width
    &&& t.display_height == e.display_height
    &&& t.input_get_buttons == e.input_get_buttons
    &&& t.input_wait_button == e.input_wait_button
    &&& t.input_get_battery_pct == e.input_get_battery_pct
    &&& t.fs_open == e.fs_open
    &&& t.fs_close == e.fs_close
    &&& t.fs_read == e.fs_read
    &&& t.fs_write == e.fs_write
    &&& t.fs_seek == e.fs_seek
    &&& t.fs_tell == e.fs_tell
    &&& t.fs_eof == e.fs_eof
    &&& t.fs_mkdir == e.fs_mkdir
    &&& t.fs_remove == e.fs_remove
    &&& t.fs_opendir == e.fs_opendir
    &&& t.fs_readdir == e.fs_readdir
    &&& t.fs_closedir == e.fs_closedir
    &&& t.fs_stat == e.fs_stat
    &&& t.net_wifi_connect == e.net_wifi_connect
    &&& t.net_wifi_disconnect == e.net_wifi_disconnect
    &&& t.net_wifi_status == e.net_wifi_status
    &&& t.net_http_get == e.net_http_get
    &&& t.net_http_post == e.net_http_post
    &&& t.net_http_begin == e.net_http_begin
    &&& t.net_http_set_header == e.net_http_set_header
    &&& t.net_http_send == e.net_http_send
    &&& t.net_http_read == e.net_http_read
    &&& t.net_http_status_code == e.net_http_status_code
    &&& t.net_http_end == e.net_http_end
    &&& t.sys_sleep_ms == e.sys_sleep_ms
    &&& t.sys_millis == e.sys_millis
    &&& t.sys_exit == e.sys_exit
    &&& t.sys_reboot == 0
    &&& t.sys_log == e.sys_log
    &&& t.sys_get_free_heap == e.sys_get_free_heap
    &&& t.sys_wifi_release == 0
    &&& t.sys_wifi_acquire == 0
    &&& t.mem_alloc == e.mem_alloc
    &&& t.mem_free == e.mem_free
    &&& t.mem_realloc == e.mem_realloc
    &&& t.font_load == e.font_load
    &&& t.font_free == e.font_free
    &&& t.font_text_width == e.font_text_width
    &&& t.font_line_height == e.font_line_height
}

/// Build a fully-populated [`PdSyscalls`] table.
///
/// `heap_start` and `heap_size` describe the memory region reserved for the
/// application heap; the loader writes these values before jumping to the app.
pub fn build_syscall_table(heap_start: u32, heap_size: u32, entries: &SyscallEntryPoints) -> (t:
    PdSyscalls)
    ensures
        table_matches(t, heap_start, heap_size, *entries),
{
    PdSyscalls {
        abi_version: PD_ABI_VERSION,
        kernel_version: 0,
        app_heap_start: heap_start,
        app_heap_size: heap_size,
        display_clear: entries.display_clear,
        display_set_pixel: entries.display_set_pixel,
        display_draw_rect: entries.display_draw_rect,
        display_fill_rect: entries.display_fill_rect,
        display_draw_bitmap: entries.display_draw_bitmap,
        display_draw_text: entries.display_draw_text,
        display_refresh: entries.display_refresh,
        display_set_rotation: entries.display_set_rotation,
        display_width: entries.display_width,
        display_height: entries.display_height,
        input_get_buttons: entries.input_get_buttons,
        input_wait_button: entries.input_wait_button,
        input_get_battery_pct: entries.input_get_battery_pct,
        fs_open: entries.fs_open,
        fs_close: entries.fs_close,
        fs_read: entries.fs_read,
        fs_write: entries.fs_write,
        fs_seek: entries.fs_seek,
        fs_tell: entries.fs_tell,
        fs_eof: entries.fs_eof,
        fs_mkdir: entries.fs_mkdir,
        fs_remove: entries.fs_remove,
        fs_opendir: entries.fs_opendir,
        fs_readdir: entries.fs_readdir,
        fs_closedir: entries.fs_closedir,
        fs_stat: entries.fs_stat,
        net_wifi_connect: entries.net_wifi_connect,
        net_wifi_disconnect: entries.net_wifi_disconnect,
        net_wifi_status: entries.net_wifi_status,
        net_http_get: entries.net_http_get,
        net_http_post: entries.net_http_post,
        net_http_begin: entries.net_http_begin,
        net_http_set_header: entries.net_http_set_header,
        net_http_send: entries.net_http_send,
        net_http_read: entries.net_http_read,
        net_http_status_code: entries.net_http_status_code,
        net_http_end: entries.net_http_end,
        sys_sleep_ms: entries.sys_sleep_ms,
        sys_millis: entries.sys_millis,
        sys_exit: entries.sys_exit,
        sys_reboot: 0,
        sys_log: entries.sys_log,
        sys_get_free_heap: entries.sys_get_free_heap,
        sys_wifi_release: 0,
        sys_wifi_acquire: 0,
        mem_alloc: entries.mem_alloc,
        mem_free: entries.mem_free,
        mem_realloc: entries.mem_realloc,
        font_load: entries.font_load,
        font_free: entries.font_free,
        font_text_width: entries.font_text_width,
        font_line_height: entries.font_line_height,
    }
}

} // verus!
