//! The help table's content: every binding the interface reacts to, in
//! display order, with the configured keys spelled out.

use vstd::prelude::*;

use crate::config::Config;
use crate::requests::{pad_str, padded};
use crate::strings::push_char;

verus! {

/// One row of the help table: a key (or a section header) and what it does.
#[derive(Debug)]
pub struct Keybinding {
    pub key: String,
    pub description: &'static str,
    pub is_section: bool,
}

/// A row reduced to its text, for contracts.
pub open spec fn row_view(k: Keybinding) -> (Seq<char>, Seq<char>, bool) {
    (k.key@, k.description@, k.is_section)
}

/// How a configured key is written in the help table.
pub open spec fn human_readable(c: char) -> Seq<char> {
    if c == ' ' {
        "Space"@
    } else if c == '\n' {
        "Enter"@
    } else if c == '\t' {
        "Tab"@
    } else {
        seq![c]
    }
}

fn human_readable_key(c: char) -> (r: String)
    ensures
        r@ == human_readable(c),
{
    if c == ' ' {
        "Space".to_owned()
    } else if c == '\n' {
        "Enter".to_owned()
    } else if c == '\t' {
        "Tab".to_owned()
    } else {
        let mut s = String::new();
        push_char(&mut s, c);
        s
    }
}

/// The full help table for a configuration, as text triples.
pub open spec fn keybindings_rows(c: Config) -> Seq<(Seq<char>, Seq<char>, bool)> {
    seq![
        ("## Global"@, ""@, true),
        ("Esc"@, "Dismiss different pop-ups"@, false),
        ("Tab or h/l"@, "Switch between different sections"@, false),
        ("j or Down"@, "Scroll down"@, false),
        ("k or Up"@, "Scroll up"@, false),
        (human_readable(c.toggle_scanning), "Start/Stop scanning"@, false),
        ("?"@, "Show help"@, false),
        ("ctrl+c or q"@, "Quit"@, false),
        (""@, ""@, false),
        ("## Adapters"@, ""@, true),
        (human_readable(c.adapter.toggle_pairing), "Enable/Disable the pairing"@, false),
        (human_readable(c.adapter.toggle_power), "Power on/off the adapter"@, false),
        (human_readable(c.adapter.toggle_discovery), "Enable/Disable the discovery"@, false),
        (""@, ""@, false),
        ("## Paired devices"@, ""@, true),
        (human_readable(c.paired_device.unpair), "Unpair the device"@, false),
        (human_readable(c.paired_device.toggle_connect), "Connect/Disconnect the device"@, false),
        (human_readable(c.paired_device.toggle_trust), "Trust/Untrust the device"@, false),
        (human_readable(c.paired_device.rename), "Rename the device"@, false),
        (""@, ""@, false),
        ("## New devices"@, ""@, true),
        (human_readable(c.new_device.pair), "Pair the device"@, false),
    ]
}

/// Builds the help table rows for this configuration, in display order.
pub fn build_keybindings(config: &Config) -> (r: Vec<Keybinding>)
    ensures
        r@.map_values(|k: Keybinding| row_view(k)) == keybindings_rows(*config),
{
    let mut keys: Vec<Keybinding> = Vec::new();
    keys.push(Keybinding { key: "## Global".to_owned(), description: "", is_section: true });
    keys.push(
        Keybinding {
            key: "Esc".to_owned(),
            description: "Dismiss different pop-ups",
            is_section: false,
        },
    );
    keys.push(
        Keybinding {
            key: "Tab or h/l".to_owned(),
            description: "Switch between different sections",
            is_section: false,
        },
    );
    keys.push(
        Keybinding { key: "j or Down".to_owned(), description: "Scroll down", is_section: false },
    );
    keys.push(
        Keybinding { key: "k or Up".to_owned(), description: "Scroll up", is_section: false },
    );
    keys.push(
        Keybinding {
            key: human_readable_key(config.toggle_scanning),
            description: "Start/Stop scanning",
            is_section: false,
        },
    );
    keys.push(Keybinding { key: "?".to_owned(), description: "Show help", is_section: false });
    keys.push(
        Keybinding { key: "ctrl+c or q".to_owned(), description: "Quit", is_section: false },
    );
    keys.push(Keybinding { key: "".to_owned(), description: "", is_section: false });
    keys.push(Keybinding { key: "## Adapters".to_owned(), description: "", is_section: true });
    keys.push(
        Keybinding {
            key: human_readable_key(config.adapter.toggle_pairing),
            description: "Enable/Disable the pairing",
            is_section: false,
        },
    );
    keys.push(
        Keybinding {
            key: human_readable_key(config.adapter.toggle_power),
            description: "Power on/off the adapter",
            is_section: false,
        },
    );
    keys.push(
        Keybinding {
            key: human_readable_key(config.adapter.toggle_discovery),
            description: "Enable/Disable the discovery",
            is_section: false,
        },
    );
    keys.push(Keybinding { key: "".to_owned(), description: "", is_section: false });
    keys.push(
        Keybinding { key: "## Paired devices".to_owned(), description: "", is_section: true },
    );
    keys.push(
        Keybinding {
            key: human_readable_key(config.paired_device.unpair),
            description: "Unpair the device",
            is_section: false,
        },
    );
    keys.push(
        Keybinding {
            key: human_readable_key(config.paired_device.toggle_connect),
            description: "Connect/Disconnect the device",
            is_section: false,
        },
    );
    keys.push(
        Keybinding {
            key: human_readable_key(config.paired_device.toggle_trust),
            description: "Trust/Untrust the device",
            is_section: false,
        },
    );
    keys.push(
        Keybinding {
            key: human_readable_key(config.paired_device.rename),
            description: "Rename the device",
            is_section: false,
        },
    );
    keys.push(Keybinding { key: "".to_owned(), description: "", is_section: false });
    keys.push(Keybinding { key: "## New devices".to_owned(), description: "", is_section: true });
    keys.push(
        Keybinding {
            key: human_readable_key(config.new_device.pair),
            description: "Pair the device",
            is_section: false,
        },
    );
    proof {
        assert(keys@.map_values(|k: Keybinding| row_view(k)) =~= keybindings_rows(*config));
    }
    keys
}

/// One row of the plain-text rendering: a section header stands alone, an
/// empty row is a blank line, and a binding is an indented, padded key
/// followed by its description.
pub open spec fn row_text(row: (Seq<char>, Seq<char>, bool)) -> Seq<char> {
    if row.2 {
        row.0 + "\n"@
    } else if row.0.len() == 0 && row.1.len() == 0 {
        "\n"@
    } else {
        "  "@ + padded(row.0, 18) + " "@ + row.1 + "\n"@
    }
}

/// The text of a run of rows.
pub open spec fn rows_text(rows: Seq<(Seq<char>, Seq<char>, bool)>) -> Seq<char>
    decreases rows.len(),
{
    if rows.len() == 0 {
        Seq::empty()
    } else {
        rows_text(rows.drop_last()) + row_text(rows.last())
    }
}

/// Renders the whole help table as plain text, one row per line.
pub fn keybindings_string(config: &Config) -> (r: String)
    ensures
        r@ == "Hotkeys:\n\n"@ + rows_text(keybindings_rows(*config)),
{
    let bindings = build_keybindings(config);
    let ghost rows = keybindings_rows(*config);
    let mut s = "Hotkeys:\n\n".to_owned();
    let mut i: usize = 0;
    let n = bindings.len();
    proof {
        assert(bindings@.map_values(|k: Keybinding| row_view(k)) == rows);
        assert(rows.subrange(0, 0) =~= Seq::<(Seq<char>, Seq<char>, bool)>::empty());
    }
    while i < n
        invariant
            n == bindings@.len(),
            i <= n,
            bindings@.map_values(|k: Keybinding| row_view(k)) == rows,
            s@ == "Hotkeys:\n\n"@ + rows_text(rows.subrange(0, i as int)),
        decreases n - i,
    {
        let kb = &bindings[i];
        proof {
            assert(rows[i as int] == row_view(bindings@[i as int]));
        }
        if kb.is_section {
            s.append(kb.key.as_str());
            s.append("\n");
        } else if kb.key.as_str().is_empty() && kb.description.is_empty() {
            s.append("\n");
        } else {
            s.append("  ");
            let padded_key = pad_str(kb.key.as_str(), 18);
            s.append(padded_key.as_str());
            s.append(" ");
            s.append(kb.description);
            s.append("\n");
        }
        proof {
            let nxt = rows.subrange(0, i + 1 as int);
            assert(nxt.drop_last() == rows.subrange(0, i as int));
            assert(nxt.last() == rows[i as int]);
        }
        i += 1;
    }
    proof {
        assert(rows.subrange(0, n as int) == rows);
    }
    s
}

} // verus!
