use x1_mk1_usb2midi::conf::{YamlButton, YamlButtonType, YamlConfig};
use x1_mk1_usb2midi::x1_board::{Button, ButtonType, Encoder, Knob, X1mk1Board};

fn entry(name: &str, button_type: YamlButtonType, read_i: u8, read_j: Option<u8>, read_pos: Option<char>, write_idx: Option<u8>, ch: u8, ignore: Option<bool>) -> YamlButton {
    YamlButton {
        name: name.to_string(),
        button_type,
        read_i,
        read_j,
        read_pos,
        write_idx,
        midi_ctrl_ch: ch,
        hotcue_ignore: ignore,
    }
}

#[test]
fn from_yaml_builds_each_kind_at_rest() {
    let cfg = YamlConfig {
        buttons: vec![
            entry("PLAY", YamlButtonType::Toggle, 3, Some(4), None, Some(7), 10, Some(true)),
            entry("SHIFT", YamlButtonType::Hold, 4, Some(0), None, None, 11, None),
            entry("PAD1", YamlButtonType::Hotcue, 2, Some(1), None, Some(9), 12, None),
            entry("FX1", YamlButtonType::Knob, 16, Some(17), None, None, 13, None),
            entry("BROWSE", YamlButtonType::Encoder, 6, None, Some('e'), None, 14, None),
        ],
    };
    let board = X1mk1Board::from_yaml(&cfg);
    assert_eq!(board.names, vec!["PLAY", "SHIFT", "PAD1", "FX1", "BROWSE"]);
    assert_eq!(
        board.buttons[0],
        ButtonType::Toggle(Button { curr: false, prev: false, read_i: 3, read_j: 4, write_idx: 7, midi_ctrl_ch: 10, hotcue_ignore: true })
    );
    assert_eq!(
        board.buttons[1],
        ButtonType::Hold(Button { curr: false, prev: false, read_i: 4, read_j: 0, write_idx: 0, midi_ctrl_ch: 11, hotcue_ignore: false })
    );
    assert_eq!(
        board.buttons[2],
        ButtonType::Hotcue(Button { curr: false, prev: false, read_i: 2, read_j: 1, write_idx: 9, midi_ctrl_ch: 12, hotcue_ignore: false })
    );
    assert_eq!(board.buttons[3], ButtonType::Knob(Knob { curr: 0, prev: 0, read_i: 16, read_j: 17, midi_ctrl_ch: 13 }));
    assert_eq!(
        board.buttons[4],
        ButtonType::Encoder(Encoder { curr: 0, prev: 0, read_pos: 'e', read_i: 6, midi_ctrl_ch: 14 })
    );
}

#[test]
fn from_yaml_later_entry_replaces_earlier_one() {
    let cfg = YamlConfig {
        buttons: vec![
            entry("A", YamlButtonType::Toggle, 0, Some(0), None, None, 1, None),
            entry("B", YamlButtonType::Toggle, 0, Some(1), None, None, 2, None),
            entry("A", YamlButtonType::Hold, 1, Some(2), None, None, 3, None),
        ],
    };
    let board = X1mk1Board::from_yaml(&cfg);
    assert_eq!(board.names, vec!["A", "B"]);
    assert_eq!(board.buttons.len(), 2);
    assert_eq!(
        board.buttons[0],
        ButtonType::Hold(Button { curr: false, prev: false, read_i: 1, read_j: 2, write_idx: 0, midi_ctrl_ch: 3, hotcue_ignore: false })
    );
}

#[test]
fn from_yaml_empty_config() {
    let board = X1mk1Board::from_yaml(&YamlConfig { buttons: vec![] });
    assert!(board.names.is_empty());
    assert!(board.buttons.is_empty());
}
