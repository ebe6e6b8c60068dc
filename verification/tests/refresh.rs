//! Folding a fresh adapter snapshot into the list: what survives, what
//! leaves, what arrives, and where the selection lands.

use bluetui::app::{App, ColorMode};
use bluetui::bluetooth::Controller;
use bluetui::requests::DisplayPasskeyPolicy;

fn controller(name: &str, alias: &str, powered: bool) -> Controller {
    Controller {
        name: name.to_string(),
        alias: alias.to_string(),
        is_powered: powered,
        is_pairable: false,
        is_discoverable: false,
        is_scanning: false,
        paired_devices: vec![],
        new_devices: vec![],
    }
}

fn new_app() -> App {
    App::new(ColorMode::Dark, DisplayPasskeyPolicy::AwaitStackSignal)
}

#[test]
fn refresh_updates_keeps_order_and_appends() {
    let mut app = new_app();
    let mut scanning = controller("hci0", "zero", false);
    scanning.is_scanning = true;
    app.controllers = vec![scanning, controller("hci1", "one", false)];
    app.controller_selected = Some(1);

    app.apply_refresh(vec![
        controller("hci1", "one-renamed", true),
        controller("hci0", "zero-renamed", false),
        controller("hci2", "fresh", true),
    ]);

    let names: Vec<&str> = app.controllers.iter().map(|c| c.name.as_str()).collect();
    assert_eq!(names, vec!["hci0", "hci1", "hci2"]);
    assert_eq!(app.controllers[0].alias, "zero-renamed");
    // The locally tracked scanning flag survives the update.
    assert!(app.controllers[0].is_scanning);
    assert_eq!(app.controllers[1].alias, "one-renamed");
    assert!(app.controllers[1].is_powered);
    assert_eq!(app.controllers[2].alias, "fresh");
    // Nothing left, so the selection stays.
    assert_eq!(app.controller_selected, Some(1));
}

#[test]
fn refresh_removes_unplugged_adapters_and_backs_up_the_selection() {
    let mut app = new_app();
    app.controllers = vec![
        controller("hci0", "a", false),
        controller("hci1", "b", false),
        controller("hci2", "c", false),
    ];
    app.controller_selected = Some(2);

    app.apply_refresh(vec![controller("hci2", "c", false)]);

    let names: Vec<&str> = app.controllers.iter().map(|c| c.name.as_str()).collect();
    assert_eq!(names, vec!["hci2"]);
    assert_eq!(app.controller_selected, Some(0));
}

#[test]
fn refresh_clears_the_selection_when_every_adapter_left() {
    let mut app = new_app();
    app.controllers = vec![controller("hci0", "a", false)];
    app.controller_selected = Some(0);

    app.apply_refresh(vec![controller("hci9", "new", false)]);

    assert_eq!(app.controllers.len(), 1);
    assert_eq!(app.controllers[0].name, "hci9");
    assert_eq!(app.controller_selected, None);
}
