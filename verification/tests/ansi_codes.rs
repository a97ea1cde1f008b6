//! Tests for the ANSI escape sequence builders.

use jl_proc::ansi_bg;
use jl_proc::ansi_fg;
use jl_proc::ansi_fg_bg;
use jl_proc::ansi_reset;

#[test]
fn ansi_color_reset() {
    assert_eq!(ansi_reset(), "\x1b[m");
}

#[test]
fn ansi_color_background() {
    let bg_fmt = ansi_bg(10);
    assert_eq!(bg_fmt, "\x1b[48;5;10m");
}

#[test]
fn ansi_color_foreground() {
    let fg_fmt = ansi_fg(5);
    assert_eq!(fg_fmt, "\x1b[38;5;5m");
}

#[test]
fn ansi_color_foreground_and_background() {
    assert_eq!(ansi_fg_bg(11, 9), "\x1b[48;5;9;38;5;11m");
}

#[test]
fn ansi_color_multi_digit() {
    assert_eq!(ansi_fg(254), "\x1b[38;5;254m");
    assert_eq!(ansi_bg(0), "\x1b[48;5;0m");
}
