//! The display-side helpers: device ordering, icons, address-shaped aliases,
//! padding, spinner, notifications, configuration text and the help table.

use bluetui::address::Address;
use bluetui::alias_filter::AliasFilter;
use bluetui::app::{App, ColorMode, FocusedBlock};
use bluetui::bluetooth::{is_mac_addr, organize_devices, sort_devices, Device, DeviceOrder};
use bluetui::config::{layout_from_name, width_from_text, Config, FlexLayout, Width};
use bluetui::help::Help;
use bluetui::keybindings::{build_keybindings, keybindings_string};
use bluetui::notification::{age_notifications, Notification, NotificationLevel};
use bluetui::requests::{pad_str, pad_string, DisplayPasskeyPolicy};
use bluetui::rfkill::{rfkill_block, RfkillBlock};
use bluetui::spinner::Spinner;
use bluetui::string_ref::StringRef;

fn dev(bits: u64, alias: &str, paired: bool) -> Device {
    Device {
        addr: Address::new(bits),
        icon: "",
        alias: alias.to_string(),
        is_paired: paired,
        is_favorite: false,
        is_trusted: false,
        is_connected: false,
        battery_percentage: None,
    }
}

#[test]
fn organize_splits_marks_and_sorts() {
    let devices = vec![
        dev(5, "zeta", true),
        dev(3, "alpha", false),
        dev(9, "00-11-22-33-44-55", false),
        dev(1, "beta", true),
        dev(2, "AA-BB-CC-DD-EE-00", false),
        dev(4, "Beta", false),
    ];
    let favorites = vec![Address::new(5)];
    let (paired, new_devices) = organize_devices(devices, &favorites);

    // Favorites first, then by address.
    let paired_info: Vec<(u64, bool)> =
        paired.iter().map(|d| (d.addr.bits, d.is_favorite)).collect();
    assert_eq!(paired_info, vec![(5, true), (1, false)]);

    // Named discoveries alphabetically, then address-shaped aliases by
    // address.
    let aliases: Vec<&str> = new_devices.iter().map(|d| d.alias.as_str()).collect();
    assert_eq!(aliases, vec!["Beta", "alpha", "AA-BB-CC-DD-EE-00", "00-11-22-33-44-55"]);
}

#[test]
fn sort_devices_orders_by_alias() {
    let devices = vec![dev(1, "pear", false), dev(2, "fig", false), dev(3, "apple", false)];
    let sorted = sort_devices(devices, DeviceOrder::Alias);
    let aliases: Vec<&str> = sorted.iter().map(|d| d.alias.as_str()).collect();
    assert_eq!(aliases, vec!["apple", "fig", "pear"]);
}

#[test]
fn mac_shaped_aliases_are_recognised() {
    assert!(is_mac_addr("00-11-22-33-44-55"));
    assert!(is_mac_addr("AA-bb-CC-dd-EE-ff"));
    assert!(!is_mac_addr("00:11:22:33:44:55"));
    assert!(!is_mac_addr("00-11-22-33-44-5"));
    assert!(!is_mac_addr("00-11-22-33-44-555"));
    assert!(!is_mac_addr("0g-11-22-33-44-55"));
    assert!(!is_mac_addr("keyboard"));
}

#[test]
fn icons_follow_the_device_class() {
    assert_eq!(Device::get_icon("input-keyboard"), "\u{f030c} ");
    assert_eq!(Device::get_icon("audio-headset"), Device::get_icon("audio-headphones"));
    assert_eq!(Device::get_icon("something-else"), "\u{f0fb0} ");
}

#[test]
fn padding_fills_to_the_requested_width() {
    assert_eq!(pad_str("ab", 5), "ab   ");
    assert_eq!(pad_string("abcdef".to_string(), 3), "abcdef");
    assert_eq!(pad_str("", 2), "  ");
}

#[test]
fn spinner_cycles_its_two_frames() {
    let mut spinner = Spinner::default();
    assert!(!spinner.active);
    let first = spinner.draw();
    spinner.update();
    let second = spinner.draw();
    assert_ne!(first, second);
    spinner.update();
    assert_eq!(spinner.draw(), first);
}

#[test]
fn notifications_age_and_expire() {
    let mut notifications = vec![
        Notification { message: "stays".to_string(), level: NotificationLevel::Info, ttl: 2 },
        Notification { message: "expires".to_string(), level: NotificationLevel::Error, ttl: 0 },
    ];
    age_notifications(&mut notifications);
    assert_eq!(notifications.len(), 1);
    assert_eq!(notifications[0].message, "stays");
    assert_eq!(notifications[0].ttl, 1);
}

#[test]
fn layout_names_map_to_layouts() {
    assert_eq!(layout_from_name("Legacy"), Some(FlexLayout::Legacy));
    assert_eq!(layout_from_name("SpaceBetween"), Some(FlexLayout::SpaceBetween));
    assert_eq!(layout_from_name("Sideways"), None);
}

#[test]
fn width_text_is_auto_or_a_small_number() {
    assert_eq!(width_from_text("auto"), Some(Width::Auto));
    assert_eq!(width_from_text("80"), Some(Width::Size(80)));
    assert_eq!(width_from_text("65535"), Some(Width::Size(65535)));
    assert_eq!(width_from_text("65536"), None);
    assert_eq!(width_from_text("8a"), None);
    assert_eq!(width_from_text(""), None);
}

#[test]
fn keybindings_table_covers_every_section() {
    let config = Config::default();
    let keys = build_keybindings(&config);
    assert_eq!(keys.len(), 22);
    assert_eq!(keys[0].key, "## Global");
    assert!(keys[0].is_section);
    assert_eq!(keys[5].key, "s");
    assert_eq!(keys[16].key, "Space");
    assert_eq!(keys[16].description, "Connect/Disconnect the device");

    let text = keybindings_string(&config);
    assert!(text.starts_with("Hotkeys:\n\n## Global\n"));
    assert!(text.contains("  s                  Start/Stop scanning\n"));
}

#[test]
fn help_scrolling_stays_in_range() {
    let config = Config::default();
    let mut help = Help::new(&config);
    assert_eq!(help.selected, Some(0));
    help.scroll_up();
    assert_eq!(help.selected, Some(0));
    help.set_block_height(10);
    let limit = help.keys.len() - (10 - 6);
    for _ in 0..40 {
        help.scroll_down();
    }
    assert_eq!(help.selected, Some(limit));
    help.scroll_up();
    assert_eq!(help.selected, Some(limit - 1));
}

#[test]
fn alias_filter_tracks_typed_text() {
    let mut filter = AliasFilter::new();
    assert!(filter.filter.is_none());
    filter.insert_char('k');
    filter.insert_char('b');
    assert_eq!(filter.filter.as_deref(), Some("kb"));
    filter.delete_char();
    assert_eq!(filter.filter.as_deref(), Some("k"));
}

#[test]
fn rfkill_states_map_to_verdicts() {
    assert_eq!(rfkill_block(0), RfkillBlock::SoftBlocked);
    assert_eq!(rfkill_block(2), RfkillBlock::HardBlocked);
    assert_eq!(rfkill_block(1), RfkillBlock::Usable);
}

#[test]
fn string_ref_reads_both_variants() {
    let owned = StringRef::from("typed".to_string());
    let fixed = StringRef::from("fixed");
    assert_eq!(owned.as_str(), "typed");
    assert_eq!(fixed.as_str(), "fixed");
}

#[test]
fn app_starts_on_the_device_list_and_ticks() {
    let mut app = App::new(ColorMode::Dark, DisplayPasskeyPolicy::AwaitStackSignal);
    assert!(app.running);
    assert_eq!(app.focused_block, FocusedBlock::PairedDevices);
    app.notifications.push(Notification {
        message: "hello".to_string(),
        level: NotificationLevel::Info,
        ttl: 3,
    });
    app.spinner.active = true;
    app.tick();
    assert_eq!(app.notifications[0].ttl, 2);
    assert_eq!(app.spinner.index, 1);
    app.quit();
    assert!(!app.running);
}

#[test]
fn reset_devices_state_selects_tops() {
    let mut app = App::new(ColorMode::Dark, DisplayPasskeyPolicy::AwaitStackSignal);
    app.controllers.push(bluetui::bluetooth::Controller {
        name: "hci0".to_string(),
        alias: "adapter".to_string(),
        is_powered: true,
        is_pairable: true,
        is_discoverable: false,
        is_scanning: false,
        paired_devices: vec![dev(1, "one", true)],
        new_devices: vec![],
    });
    app.controller_selected = Some(0);
    app.reset_devices_state();
    assert_eq!(app.paired_selected, Some(0));
    assert_eq!(app.new_selected, None);
}
