//! Decisions of the interactive player: the list of presets to choose
//! from, the starting choice, moving the choice, and play/pause.
use vstd::prelude::*;
use crate::config::Config;
use crate::config::built_ins;
use crate::config::spec_built_ins;
use crate::text::str_eq;

verus! {

/// What the player has to do with the sound.
#[derive(Clone, Copy, Debug, PartialEq, Eq, Structural)]
pub enum Transport {
    Play,
    Pause,
}

/// Flips between playing and paused; returns what the player has to do.
pub fn toggle(paused: &mut bool) -> (r: Transport)
    ensures
        *final(paused) == !*old(paused),
        r == (if *old(paused) {
            Transport::Play
        } else {
            Transport::Pause
        }),
{
    let action = if *paused {
        Transport::Play
    } else {
        Transport::Pause
    };
    *paused = !*paused;
    action
}

/// The names shown: the built-in presets', then the custom presets', in order.
pub open spec fn spec_preset_names(builtin: Seq<Seq<char>>, custom: Seq<Seq<char>>) -> Seq<
    Seq<char>,
> {
    builtin + custom
}

/// The names of the built-in presets, in order.
pub open spec fn built_in_names() -> Seq<Seq<char>> {
    spec_built_ins().map_values(|p: crate::config::PresetInfo| p.name)
}

/// The names of all presets of `config` (see [`spec_preset_names`]).
pub fn preset_names(config: &Config) -> (r: Vec<String>)
    ensures
        r@.map_values(|s: String| s@) == spec_preset_names(
            built_in_names(),
            config@.presets.map_values(|p: crate::config::PresetView| p.name),
        ),
{
    let b = built_ins();
    let mut out: Vec<String> = Vec::new();
    let mut i: usize = 0;
    while i < b.len()
        invariant
            i <= b@.len(),
            b@.len() == spec_built_ins().len(),
            forall|k: int| 0 <= k < b@.len() ==> crate::config::preset_info(#[trigger] b@[k]) == spec_built_ins()[k],
            out@.map_values(|s: String| s@) =~= built_in_names().take(i as int),
        decreases b.len() - i,
    {
        out.push(String::from_str(b[i].name));
        assert(built_in_names().take(i + 1) =~= built_in_names().take(i as int).push(b@[i as int].name@));
        i = i + 1;
    }
    assert(built_in_names().take(i as int) =~= built_in_names());
    let ghost customs = config@.presets.map_values(|p: crate::config::PresetView| p.name);
    let mut j: usize = 0;
    while j < config.presets.len()
        invariant
            j <= config.presets@.len(),
            customs == config@.presets.map_values(|p: crate::config::PresetView| p.name),
            out@.map_values(|s: String| s@) =~= built_in_names() + customs.take(j as int),
        decreases config.presets.len() - j,
    {
        let ghost before = out@;
        out.push(config.presets[j].name.clone());
        assert(customs[j as int] == config.presets@[j as int].name@);
        assert(customs.take(j + 1) =~= customs.take(j as int).push(config.presets@[j as int].name@));
        assert(out@.map_values(|s: String| s@) =~= before.map_values(|s: String| s@).push(
            config.presets@[j as int].name@,
        ));
        j = j + 1;
    }
    assert(customs.take(j as int) =~= customs);
    out
}

/// The position of the first of `names[i..]` equal to `n`.
pub open spec fn position_from(names: Seq<Seq<char>>, n: Seq<char>, i: int) -> Option<int>
    decreases names.len() - i,
{
    if i < 0 || i >= names.len() {
        None
    } else if names[i] == n {
        Some(i)
    } else {
        position_from(names, n, i + 1)
    }
}

/// The choice to start from: the requested preset's position if it is
/// listed, else the default preset's, else the first.
pub open spec fn spec_initial_selection(
    names: Seq<Seq<char>>,
    requested: Option<Seq<char>>,
    default: Seq<char>,
) -> int {
    let by_request = match requested {
        Some(r) => position_from(names, r, 0),
        None => None,
    };
    match by_request {
        Some(i) => i,
        None => match position_from(names, default, 0) {
            Some(i) => i,
            None => 0,
        },
    }
}

fn position(names: &Vec<String>, n: &str) -> (r: Option<usize>)
    ensures
        match r {
            Some(i) => position_from(names@.map_values(|s: String| s@), n@, 0) == Some(i as int),
            None => position_from(names@.map_values(|s: String| s@), n@, 0) is None,
        },
{
    let ghost v = names@.map_values(|s: String| s@);
    let mut i: usize = 0;
    while i < names.len()
        invariant
            i <= names@.len(),
            v == names@.map_values(|s: String| s@),
            position_from(v, n@, 0) == position_from(v, n@, i as int),
        decreases names.len() - i,
    {
        if str_eq(names[i].as_str(), n) {
            return Some(i);
        }
        i = i + 1;
    }
    None
}

/// The choice to start from (see [`spec_initial_selection`]).
pub fn initial_selection(names: &Vec<String>, requested: Option<&str>, default: &str) -> (r: usize)
    ensures
        r as int == spec_initial_selection(
            names@.map_values(|s: String| s@),
            match requested {
                Some(q) => Some(q@),
                None => None,
            },
            default@,
        ),
{
    let by_request = match requested {
        Some(q) => position(names, q),
        None => None,
    };
    match by_request {
        Some(i) => i,
        None => match position(names, default) {
            Some(i) => i,
            None => 0,
        },
    }
}

/// A move of the choice in the list.
#[derive(Clone, Copy, Debug, PartialEq, Eq, Structural)]
pub enum Move {
    Up,
    Down,
}

/// The choice after a move among `len` entries, if the choice moves: up
/// unless at the first entry, down unless at the last.
pub open spec fn spec_moved(selected: int, len: int, m: Move) -> Option<int> {
    match m {
        Move::Up => if selected > 0 {
            Some(selected - 1)
        } else {
            None
        },
        Move::Down => if selected + 1 < len {
            Some(selected + 1)
        } else {
            None
        },
    }
}

/// Moves the choice (see [`spec_moved`]).
pub fn moved(selected: usize, len: usize, m: Move) -> (r: Option<usize>)
    ensures
        match r {
            Some(i) => spec_moved(selected as int, len as int, m) == Some(i as int),
            None => spec_moved(selected as int, len as int, m) is None,
        },
{
    match m {
        Move::Up => if selected > 0 {
            Some(selected - 1)
        } else {
            None
        },
        Move::Down => if selected < len && len - selected > 1 {
            Some(selected + 1)
        } else {
            None
        },
    }
}

/// A move keeps a valid choice valid.
pub proof fn lemma_moved_in_range(selected: int, len: int, m: Move)
    requires
        0 <= selected < len,
    ensures
        spec_moved(selected, len, m) matches Some(i) ==> 0 <= i < len,
{
}

/// A move goes one entry up or down, and stops only at the ends of the
/// list: up is refused exactly at the first entry, down exactly at the last.
pub proof fn lemma_moved_by_one(selected: int, len: int, m: Move)
    requires
        0 <= selected < len,
    ensures
        spec_moved(selected, len, m) matches Some(i) ==> (m is Up ==> i + 1 == selected) && (m is Down
            ==> i == selected + 1),
        m is Up ==> (spec_moved(selected, len, m) is None <==> selected == 0),
        m is Down ==> (spec_moved(selected, len, m) is None <==> selected == len - 1),
{
}

} // verus!
