use wallpaper_picker::dispatch::{diagnostic, wallpaper_command, Outcome};
use wallpaper_picker::tick::{poll_timeout, tick_is_over};
use wallpaper_picker::title::{starts_with, title};

#[test]
fn the_title_drops_the_root_and_trails_the_rest() {
    assert_eq!(
        title("/home/user/Pictures/Wallpaper/", "/home/user/Pictures/"),
        "Change Wallpaper » Wallpaper » "
    );
    assert_eq!(
        title("/home/user/Pictures/Wallpaper/Nature", "/home/user/Pictures/"),
        "Change Wallpaper » Wallpaper » Nature"
    );
}

#[test]
fn the_title_of_a_path_outside_the_root_trails_all_of_it() {
    assert_eq!(
        title("/home/user/Pictures", "/home/user/Pictures/"),
        "Change Wallpaper »  » home » user » Pictures"
    );
    assert_eq!(title("/", "/home/user/Pictures/"), "Change Wallpaper »  » ");
}

#[test]
fn the_title_drops_the_root_only_in_front() {
    assert_eq!(title("/a/root/b", "root/"), "Change Wallpaper »  » a » root » b");
    assert_eq!(title("root/root/b", "root/"), "Change Wallpaper » root » b");
}

#[test]
fn the_title_of_the_root_itself_is_the_head() {
    assert_eq!(title("/home/user/Pictures/", "/home/user/Pictures/"), "Change Wallpaper » ");
    assert_eq!(title("", ""), "Change Wallpaper » ");
}

#[test]
fn the_title_keeps_letters_beyond_ascii() {
    assert_eq!(title("/Bilder/Äpfel/日本", "/Bilder/"), "Change Wallpaper » Äpfel » 日本");
    assert_eq!(title("/Bilder/Äpfel", "/Bilder/Ä"), "Change Wallpaper » pfel");
}

#[test]
fn a_text_starts_with_its_prefixes_only() {
    assert!(starts_with("/home/user", "/home"));
    assert!(starts_with("/home/user", ""));
    assert!(starts_with("/home/user", "/home/user"));
    assert!(starts_with("", ""));
    assert!(!starts_with("/home/user", "/home/user/"));
    assert!(!starts_with("/home/user", "home"));
    assert!(!starts_with("", "/"));
    assert!(!starts_with("Äpfel", "A"));
    assert!(starts_with("Äpfel", "Äp"));
}

#[test]
fn the_wallpaper_command_names_the_output_and_the_image() {
    let command = wallpaper_command("eDP-1", "/pictures/bg.jpg");
    assert_eq!(command.program, "hyprctl");
    assert_eq!(
        command.arguments,
        vec![
            "hyprpaper".to_string(),
            "wallpaper".to_string(),
            "eDP-1,/pictures/bg.jpg".to_string()
        ]
    );
}

#[test]
fn the_wallpaper_command_takes_any_output_and_path() {
    let command = wallpaper_command("", "");
    assert_eq!(command.program, "hyprctl");
    assert_eq!(
        command.arguments,
        vec!["hyprpaper".to_string(), "wallpaper".to_string(), ",".to_string()]
    );
    let command = wallpaper_command("HDMI-A-1", "/a b/c,d.jpg");
    assert_eq!(command.arguments[2], "HDMI-A-1,/a b/c,d.jpg");
}

#[test]
fn a_successful_command_is_not_logged() {
    assert_eq!(diagnostic(&Outcome::Succeeded), None);
}

#[test]
fn a_failed_command_is_logged_with_its_status() {
    assert_eq!(
        diagnostic(&Outcome::Failed("ExitStatus(unix_wait_status(256))".to_string())),
        Some("Error executing command: ExitStatus(unix_wait_status(256))".to_string())
    );
}

#[test]
fn a_command_that_did_not_start_is_logged_with_the_reason() {
    assert_eq!(
        diagnostic(&Outcome::NotStarted("No such file or directory (os error 2)".to_string())),
        Some("Error executing command: No such file or directory (os error 2)".to_string())
    );
}

#[test]
fn the_poll_waits_for_what_is_left_of_the_tick() {
    assert_eq!(poll_timeout(250, 0), 250);
    assert_eq!(poll_timeout(250, 100), 150);
    assert_eq!(poll_timeout(250, 249), 1);
    assert_eq!(poll_timeout(250, 250), 0);
    assert_eq!(poll_timeout(250, 1000), 0);
    assert_eq!(poll_timeout(0, 0), 0);
    assert_eq!(poll_timeout(u128::MAX, 1), u128::MAX - 1);
    assert_eq!(poll_timeout(1, u128::MAX), 0);
}

#[test]
fn a_tick_is_over_once_its_length_has_passed() {
    assert!(!tick_is_over(250, 0));
    assert!(!tick_is_over(250, 249));
    assert!(tick_is_over(250, 250));
    assert!(tick_is_over(250, 251));
    assert!(tick_is_over(0, 0));
}
