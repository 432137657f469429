use nexos::command::du;
use nexos::command::ls::format_timestamp;
use nexos::vfs::Vfs;

#[test]
fn timestamp_zero_is_epoch_placeholder() {
    assert_eq!(format_timestamp(0), "Jan  1 00:00");
}

#[test]
fn timestamp_formats_month_day_time() {
    assert_eq!(format_timestamp(1_700_000_000), "Nov 14 22:13");
    assert_eq!(format_timestamp(951_782_400), "Feb 29 00:00");
    assert_eq!(format_timestamp(86_400 * 31 + 3_600 * 5 + 60 * 7), "Feb  1 05:07");
}

#[test]
fn du_sizes_in_kilobytes_and_human() {
    let mut vfs = Vfs::new();
    vfs.write_file("/tmp/f", &"x".repeat(1536)).unwrap();
    assert_eq!(du::execute(&vfs, &["-s", "/tmp/f"]).unwrap(), "2K\t/tmp/f\n");
    assert_eq!(du::execute(&vfs, &["-h", "-s", "/tmp/f"]).unwrap(), "1.5K\t/tmp/f\n");
    vfs.write_file("/tmp/g", "abc").unwrap();
    assert_eq!(du::execute(&vfs, &["-h", "-s", "/tmp/g"]).unwrap(), "3B\t/tmp/g\n");
}
