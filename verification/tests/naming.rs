use paddy::command::Commands;
use paddy::naming::default_output_path;
use std::path::PathBuf;

#[test]
fn default_name_holds_stem_frame_size_and_padding() {
    assert_eq!(default_output_path("hero", &32, &32, &4), "./hero-32x32-pad4.png");
    assert_eq!(default_output_path("walk cycle", &16, &24, &10), "./walk cycle-16x24-pad10.png");
}

#[test]
fn default_name_writes_numbers_in_decimal() {
    assert_eq!(default_output_path("s", &0, &0, &0), "./s-0x0-pad0.png");
    assert_eq!(default_output_path("s", &9, &10, &11), "./s-9x10-pad11.png");
    assert_eq!(default_output_path("s", &100, &1009, &90), "./s-100x1009-pad90.png");
    assert_eq!(
        default_output_path("s", &u32::MAX, &4000000000, &1234567890),
        "./s-4294967295x4000000000-pad1234567890.png"
    );
}

#[test]
fn default_name_keeps_the_stem_as_it_is() {
    assert_eq!(default_output_path("", &1, &2, &3), "./-1x2-pad3.png");
    assert_eq!(default_output_path("a.b-c", &1, &2, &3), "./a.b-c-1x2-pad3.png");
    assert_eq!(default_output_path("héros", &1, &2, &3), "./héros-1x2-pad3.png");
}

#[test]
fn pad_command_carries_its_arguments() {
    let command = Commands::Pad {
        width: 32,
        height: 16,
        padding: 4,
        sheet_path: PathBuf::from("sheets/hero.png"),
        output_path: None,
    };
    let Commands::Pad { width, height, padding, sheet_path, output_path } = command;
    assert_eq!((width, height, padding), (32, 16, 4));
    assert_eq!(sheet_path, PathBuf::from("sheets/hero.png"));
    assert_eq!(output_path, None);
}
