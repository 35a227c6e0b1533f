use vstd::prelude::*;

use crate::conf::{YamlButton, YamlButtonType, YamlConfig};

verus! {

/// A push button: its current and previous reading, where it is read in the
/// state report, the LED it drives and its MIDI controller number.
#[derive(Clone, Copy, Debug, PartialEq, Eq, Structural)]
pub struct Button {
    pub curr: bool,
    pub prev: bool,
    pub read_i: u8,
    pub read_j: u8,
    pub write_idx: u8,
    pub midi_ctrl_ch: u8,
    pub hotcue_ignore: bool,
}

/// An absolute knob read from the two report bytes `read_i` (high) and
/// `read_j` (low).
#[derive(Clone, Copy, Debug, PartialEq, Eq, Structural)]
pub struct Knob {
    pub curr: u8,
    pub prev: u8,
    pub read_i: u8,
    pub read_j: u8,
    pub midi_ctrl_ch: u8,
}

/// A relative encoder read from one nibble (`read_pos`: `'s'` low, `'e'`
/// high) of the report byte `read_i`.
#[derive(Clone, Copy, Debug, PartialEq, Eq, Structural)]
pub struct Encoder {
    pub curr: u8,
    pub prev: u8,
    pub read_pos: char,
    pub read_i: u8,
    pub midi_ctrl_ch: u8,
}

/// A control of the board and how it behaves.
#[derive(Clone, Copy, Debug, PartialEq, Eq, Structural)]
pub enum ButtonType {
    Toggle(Button),
    Hold(Button),
    Knob(Knob),
    Encoder(Encoder),
    Hotcue(Button),
}

/// The controls of a board, keyed by name: `names[k]` is the name of
/// `buttons[k]`, and no name occurs twice.
pub struct X1mk1Board {
    pub names: Vec<String>,
    pub buttons: Vec<ButtonType>,
}

/// The character sequences of a list of strings.
pub open spec fn name_views(names: Seq<String>) -> Seq<Seq<char>> {
    names.map_values(|s: String| s@)
}

/// No name occurs twice.
pub open spec fn names_distinct(ns: Seq<Seq<char>>) -> bool {
    forall|a: int, b: int| 0 <= a < ns.len() && 0 <= b < ns.len() && a != b ==> ns[a] != ns[b]
}

/// A configuration entry can be turned into a control: buttons and knobs
/// give `read_j`, encoders give `read_pos`.
pub open spec fn yaml_button_complete(yb: YamlButton) -> bool {
    match yb.button_type {
        YamlButtonType::Encoder => yb.read_pos is Some,
        _ => yb.read_j is Some,
    }
}

/// Every entry of the configuration can be turned into a control.
pub open spec fn yaml_config_complete(cfg: Seq<YamlButton>) -> bool {
    forall|k: int| 0 <= k < cfg.len() ==> yaml_button_complete(#[trigger] cfg[k])
}

/// The button described by a configuration entry, at rest.
pub open spec fn button_of(yb: YamlButton) -> Button {
    Button {
        curr: false,
        prev: false,
        read_i: yb.read_i,
        read_j: yb.read_j.unwrap(),
        write_idx: match yb.write_idx {
            Some(w) => w,
            None => 0,
        },
        midi_ctrl_ch: yb.midi_ctrl_ch,
        hotcue_ignore: match yb.hotcue_ignore {
            Some(h) => h,
            None => false,
        },
    }
}

/// The control described by a configuration entry, at rest.
pub open spec fn control_of(yb: YamlButton) -> ButtonType {
    match yb.button_type {
        YamlButtonType::Toggle => ButtonType::Toggle(button_of(yb)),
        YamlButtonType::Hold => ButtonType::Hold(button_of(yb)),
        YamlButtonType::Hotcue => ButtonType::Hotcue(button_of(yb)),
        YamlButtonType::Knob => ButtonType::Knob(
            Knob {
                curr: 0,
                prev: 0,
                read_i: yb.read_i,
                read_j: yb.read_j.unwrap(),
                midi_ctrl_ch: yb.midi_ctrl_ch,
            },
        ),
        YamlButtonType::Encoder => ButtonType::Encoder(
            Encoder {
                curr: 0,
                prev: 0,
                read_pos: yb.read_pos.unwrap(),
                read_i: yb.read_i,
                midi_ctrl_ch: yb.midi_ctrl_ch,
            },
        ),
    }
}

/// The position of `n` in `ns`, where it occurs.
pub open spec fn position_in(ns: Seq<Seq<char>>, n: Seq<char>) -> int {
    choose|k: int| 0 <= k < ns.len() && ns[k] == n
}

/// Inserting into a keyed list: a name already present keeps its place and
/// gets the new control; a new name is appended with its control.
pub open spec fn insert_control(
    entries: (Seq<Seq<char>>, Seq<ButtonType>),
    n: Seq<char>,
    c: ButtonType,
) -> (Seq<Seq<char>>, Seq<ButtonType>) {
    if entries.0.contains(n) {
        (entries.0, entries.1.update(position_in(entries.0, n), c))
    } else {
        (entries.0.push(n), entries.1.push(c))
    }
}

/// The keyed list of controls that a configuration describes: its entries
/// inserted one after the other.
pub open spec fn board_entries(cfg: Seq<YamlButton>) -> (Seq<Seq<char>>, Seq<ButtonType>)
    decreases cfg.len(),
{
    if cfg.len() == 0 {
        (Seq::empty(), Seq::empty())
    } else {
        insert_control(board_entries(cfg.drop_last()), cfg.last().name@, control_of(cfg.last()))
    }
}

/// The index of the last configuration entry named `n`, or -1 if none is.
pub open spec fn last_entry_named(cfg: Seq<YamlButton>, n: Seq<char>) -> int
    decreases cfg.len(),
{
    if cfg.len() == 0 {
        -1
    } else if cfg.last().name@ == n {
        cfg.len() - 1
    } else {
        last_entry_named(cfg.drop_last(), n)
    }
}

/// The board that a configuration describes holds each name at most once;
/// it holds exactly the names of the entries, and under each name the
/// control of the last entry with that name.
pub proof fn lemma_board_lookup(cfg: Seq<YamlButton>, n: Seq<char>)
    ensures
        board_entries(cfg).0.len() == board_entries(cfg).1.len(),
        names_distinct(board_entries(cfg).0),
        board_entries(cfg).0.contains(n) <==> last_entry_named(cfg, n) >= 0,
        last_entry_named(cfg, n) >= 0 ==> 0 <= last_entry_named(cfg, n) < cfg.len() && cfg[last_entry_named(cfg, n)].name@ == n,
        board_entries(cfg).0.contains(n) ==> board_entries(cfg).1[position_in(board_entries(cfg).0, n)]
            == control_of(cfg[last_entry_named(cfg, n)]),
    decreases cfg.len(),
{
    if cfg.len() > 0 {
        let prev = cfg.drop_last();
        lemma_board_lookup(prev, n);
        lemma_board_lookup(prev, cfg.last().name@);
        let e = board_entries(prev);
        let m = cfg.last().name@;
        if e.0.contains(m) {
            let p = position_in(e.0, m);
            assert(0 <= p < e.0.len() && e.0[p] == m);
            if n != m && e.0.contains(n) {
                let q = position_in(e.0, n);
                assert(0 <= q < e.0.len() && e.0[q] == n);
                assert(q != p);
            }
        } else {
            let e2 = board_entries(cfg);
            assert(e2.0 == e.0.push(m));
            assert forall|a: int, b: int| 0 <= a < e2.0.len() && 0 <= b < e2.0.len() && a != b implies e2.0[a] != e2.0[b] by {
                if a == e.0.len() {
                    assert(e.0[b] == e2.0[b]);
                } else if b == e.0.len() {
                    assert(e.0[a] == e2.0[a]);
                }
            }
            if n == m {
                let q = position_in(e2.0, n);
                assert(e2.0[e.0.len() as int] == n);
                assert(0 <= q < e2.0.len() && e2.0[q] == n);
                assert(q == e.0.len());
            } else if e.0.contains(n) {
                let q = position_in(e.0, n);
                assert(0 <= q < e.0.len() && e.0[q] == n);
                assert(e2.0[q] == n);
                assert(e2.0.contains(n));
                let q2 = position_in(e2.0, n);
                assert(0 <= q2 < e2.0.len() && e2.0[q2] == n);
                assert(q2 == q);
            } else {
                assert(!e2.0.contains(n)) by {
                    if e2.0.contains(n) {
                        let q2 = choose|i: int| 0 <= i < e2.0.len() && e2.0[i] == n;
                        assert(e.0[q2] == n);
                    }
                }
            }
        }
    }
}

/// Whether every entry of the configuration can be turned into a control
/// (buttons and knobs give `read_j`, encoders give `read_pos`).
pub fn config_is_complete(yaml_config: &YamlConfig) -> (ok: bool)
    ensures
        ok == yaml_config_complete(yaml_config.buttons@),
{
    let n = yaml_config.buttons.len();
    for k in 0..n
        invariant
            n == yaml_config.buttons.len(),
            forall|j: int| 0 <= j < k ==> yaml_button_complete(#[trigger] yaml_config.buttons@[j]),
    {
        let yaml_button = &yaml_config.buttons[k];
        let ok = match yaml_button.button_type {
            YamlButtonType::Encoder => yaml_button.read_pos.is_some(),
            _ => yaml_button.read_j.is_some(),
        };
        if !ok {
            assert(!yaml_button_complete(yaml_config.buttons@[k as int]));
            return false;
        }
    }
    true
}

/// The control built from a complete configuration entry is at rest, is
/// of the entry's kind and copies the entry's settings: `read_j`,
/// `read_pos` as given, `write_idx` as given or 0, `hotcue_ignore` as
/// given or false.
pub proof fn lemma_control_of_fields(yb: YamlButton)
    requires
        yaml_button_complete(yb),
    ensures
        match control_of(yb) {
            ButtonType::Toggle(b) | ButtonType::Hold(b) | ButtonType::Hotcue(b) => {
                &&& (yb.button_type == YamlButtonType::Toggle <==> control_of(yb) is Toggle)
                &&& (yb.button_type == YamlButtonType::Hold <==> control_of(yb) is Hold)
                &&& (yb.button_type == YamlButtonType::Hotcue <==> control_of(yb) is Hotcue)
                &&& !b.curr && !b.prev
                &&& b.read_i == yb.read_i
                &&& yb.read_j == Some(b.read_j)
                &&& b.midi_ctrl_ch == yb.midi_ctrl_ch
                &&& (yb.write_idx is None ==> b.write_idx == 0)
                &&& (forall|w: u8| yb.write_idx == Some(w) ==> b.write_idx == w)
                &&& (yb.hotcue_ignore is None ==> !b.hotcue_ignore)
                &&& (forall|h: bool| yb.hotcue_ignore == Some(h) ==> b.hotcue_ignore == h)
            },
            ButtonType::Knob(k) => {
                &&& yb.button_type == YamlButtonType::Knob
                &&& k.curr == 0 && k.prev == 0
                &&& k.read_i == yb.read_i
                &&& yb.read_j == Some(k.read_j)
                &&& k.midi_ctrl_ch == yb.midi_ctrl_ch
            },
            ButtonType::Encoder(e) => {
                &&& yb.button_type == YamlButtonType::Encoder
                &&& e.curr == 0 && e.prev == 0
                &&& e.read_i == yb.read_i
                &&& yb.read_pos == Some(e.read_pos)
                &&& e.midi_ctrl_ch == yb.midi_ctrl_ch
            },
        },
{
}

/// Under each name, the board built from a complete configuration holds a
/// control of the kind of the last entry with that name, copying its
/// settings (`hotcue_ignore` as given, false when absent).
pub proof fn lemma_board_control_fields(cfg: Seq<YamlButton>, n: Seq<char>)
    requires
        yaml_config_complete(cfg),
        board_entries(cfg).0.contains(n),
    ensures
        ({
            let yb = cfg[last_entry_named(cfg, n)];
            let c = board_entries(cfg).1[position_in(board_entries(cfg).0, n)];
            &&& yb.name@ == n
            &&& match c {
                ButtonType::Toggle(b) | ButtonType::Hold(b) | ButtonType::Hotcue(b) => {
                    &&& (yb.button_type == YamlButtonType::Toggle <==> c is Toggle)
                    &&& (yb.button_type == YamlButtonType::Hold <==> c is Hold)
                    &&& (yb.button_type == YamlButtonType::Hotcue <==> c is Hotcue)
                    &&& !b.curr && !b.prev
                    &&& b.read_i == yb.read_i
                    &&& yb.read_j == Some(b.read_j)
                    &&& b.midi_ctrl_ch == yb.midi_ctrl_ch
                    &&& (yb.write_idx is None ==> b.write_idx == 0)
                    &&& (forall|w: u8| yb.write_idx == Some(w) ==> b.write_idx == w)
                    &&& (yb.hotcue_ignore is None ==> !b.hotcue_ignore)
                    &&& (forall|h: bool| yb.hotcue_ignore == Some(h) ==> b.hotcue_ignore == h)
                },
                ButtonType::Knob(k) => {
                    &&& yb.button_type == YamlButtonType::Knob
                    &&& k.curr == 0 && k.prev == 0
                    &&& k.read_i == yb.read_i
                    &&& yb.read_j == Some(k.read_j)
                    &&& k.midi_ctrl_ch == yb.midi_ctrl_ch
                },
                ButtonType::Encoder(e) => {
                    &&& yb.button_type == YamlButtonType::Encoder
                    &&& e.curr == 0 && e.prev == 0
                    &&& e.read_i == yb.read_i
                    &&& yb.read_pos == Some(e.read_pos)
                    &&& e.midi_ctrl_ch == yb.midi_ctrl_ch
                },
            }
        }),
{
    lemma_board_lookup(cfg, n);
    let i = last_entry_named(cfg, n);
    assert(yaml_button_complete(cfg[i]));
    lemma_control_of_fields(cfg[i]);
}

impl X1mk1Board {
    /// The board is well formed: one name per control, no name twice.
    pub open spec fn wf(&self) -> bool {
        &&& self.names.len() == self.buttons.len()
        &&& names_distinct(name_views(self.names@))
    }

    /// Builds the board that a configuration describes, every control at
    /// rest; a later entry with the name of an earlier one replaces its
    /// control.
    pub fn from_yaml(yaml_config: &YamlConfig) -> (board: Self)
        requires
            yaml_config_complete(yaml_config.buttons@),
        ensures
            board.wf(),
            name_views(board.names@) == board_entries(yaml_config.buttons@).0,
            board.buttons@ == board_entries(yaml_config.buttons@).1,
    {
        let mut names: Vec<String> = Vec::new();
        let mut buttons: Vec<ButtonType> = Vec::new();
        let n = yaml_config.buttons.len();
        let ghost cfg = yaml_config.buttons@;
        for idx in 0..n
            invariant
                n == cfg.len(),
                cfg == yaml_config.buttons@,
                yaml_config_complete(cfg),
                names.len() == buttons.len(),
                names_distinct(name_views(names@)),
                name_views(names@) == board_entries(cfg.take(idx as int)).0,
                buttons@ == board_entries(cfg.take(idx as int)).1,
        {
            let yaml_button = &yaml_config.buttons[idx];
            assert(yaml_button_complete(cfg[idx as int]));
            let button_type = Self::control_from(yaml_button);
            let pos = Self::position_of(&names, &yaml_button.name);
            assert(cfg.take(idx + 1).drop_last() =~= cfg.take(idx as int));
            match pos {
                Some(k) => {
                    proof {
                        let ns = name_views(names@);
                        assert(ns.contains(yaml_button.name@)) by {
                            assert(ns[k as int] == yaml_button.name@);
                        }
                        let p = position_in(ns, yaml_button.name@);
                        assert(0 <= k < ns.len() && ns[k as int] == yaml_button.name@);
                        assert(0 <= p < ns.len() && ns[p] == yaml_button.name@);
                        assert(p == k);
                    }
                    buttons.set(k, button_type);
                },
                None => {
                    let ghost old_names = names@;
                    names.push(yaml_button.name.clone());
                    buttons.push(button_type);
                    assert(name_views(names@) =~= name_views(old_names).push(yaml_button.name@));
                },
            }
        }
        assert(cfg.take(n as int) =~= cfg);
        X1mk1Board { names, buttons }
    }

    /// The control that a complete configuration entry describes.
    fn control_from(yaml_button: &YamlButton) -> (c: ButtonType)
        requires
            yaml_button_complete(*yaml_button),
        ensures
            c == control_of(*yaml_button),
    {
        let write_idx = match yaml_button.write_idx {
            Some(w) => w,
            None => 0,
        };
        let hotcue_ignore = match yaml_button.hotcue_ignore {
            Some(h) => h,
            None => false,
        };
        match yaml_button.button_type {
            YamlButtonType::Toggle | YamlButtonType::Hold | YamlButtonType::Hotcue => {
                let read_j = match yaml_button.read_j {
                    Some(j) => j,
                    None => 0,
                };
                let button = Button {
                    curr: false,
                    prev: false,
                    read_i: yaml_button.read_i,
                    read_j,
                    write_idx,
                    midi_ctrl_ch: yaml_button.midi_ctrl_ch,
                    hotcue_ignore,
                };
                match yaml_button.button_type {
                    YamlButtonType::Toggle => ButtonType::Toggle(button),
                    YamlButtonType::Hold => ButtonType::Hold(button),
                    _ => ButtonType::Hotcue(button),
                }
            },
            YamlButtonType::Knob => {
                let read_j = match yaml_button.read_j {
                    Some(j) => j,
                    None => 0,
                };
                ButtonType::Knob(
                    Knob {
                        curr: 0,
                        prev: 0,
                        read_i: yaml_button.read_i,
                        read_j,
                        midi_ctrl_ch: yaml_button.midi_ctrl_ch,
                    },
                )
            },
            YamlButtonType::Encoder => {
                let read_pos = match yaml_button.read_pos {
                    Some(p) => p,
                    None => 's',
                };
                ButtonType::Encoder(
                    Encoder {
                        curr: 0,
                        prev: 0,
                        read_pos,
                        read_i: yaml_button.read_i,
                        midi_ctrl_ch: yaml_button.midi_ctrl_ch,
                    },
                )
            },
        }
    }

    /// Where `name` stands in `names`, if it does.
    fn position_of(names: &Vec<String>, name: &String) -> (r: Option<usize>)
        ensures
            match r {
                Some(k) => k < names.len() && names@[k as int]@ == name@,
                None => !name_views(names@).contains(name@),
            },
    {
        let mut k: usize = 0;
        while k < names.len()
            invariant
                k <= names.len(),
                forall|m: int| 0 <= m < k ==> names@[m]@ != name@,
            decreases names.len() - k,
        {
            if names[k] == *name {
                return Some(k);
            }
            k = k + 1;
        }
        assert forall|m: int| 0 <= m < names.len() implies name_views(names@)[m] != name@ by {}
        None
    }
}

} // verus!
