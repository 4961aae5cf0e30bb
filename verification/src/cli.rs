//! What the diagnostic command line reads from its arguments: component and
//! parameter lists, stream rates and protocol versions; and the one-line
//! summaries it prints of decoded components.

use vstd::prelude::*;

use crate::numbers::{all_digits, digits_value, is_digit, parse_u32, spec_parse_unsigned};
use crate::packet::{Camera2DModel, Component, ComponentData, ComponentDataModel, AnalogDeviceModel, AnalogSingleDeviceModel, ForcePlateModel, ImageModel, SeriesModel, EyeTrackerSample, GazeVectorSample, SkeletonSegment};
use crate::protocol::{ComponentSelection, ComponentType, ParameterSelection, ProtocolVersion, StreamRate};
use crate::text::{trim_start, push_decimal, chars_eq_str, chars_of, decimal, lowercase, lowercase_chars, push_str, string_of, trim, trim_chars};

verus! {

// ---------------------------------------------------------------------------
// Lists and tokens.
/// The pieces of `s` between commas, as `str::split(',')` yields them.
pub open spec fn split_commas(s: Seq<char>) -> Seq<Seq<char>>
    decreases s.len(),
{
    if s.len() == 0 {
        seq![Seq::empty()]
    } else {
        let prev = split_commas(s.drop_last());
        if s.last() == ',' {
            prev.push(Seq::empty())
        } else {
            prev.update(prev.len() - 1, prev.last().push(s.last()))
        }
    }
}

/// The pieces trimmed, the empty ones left out.
pub open spec fn kept_pieces(ps: Seq<Seq<char>>) -> Seq<Seq<char>>
    decreases ps.len(),
{
    if ps.len() == 0 {
        Seq::empty()
    } else {
        let prev = kept_pieces(ps.drop_last());
        if trim(ps.last()).len() > 0 {
            prev.push(trim(ps.last()))
        } else {
            prev
        }
    }
}

/// The items of a comma-separated list: split on commas, trimmed, empty
/// items left out.
pub open spec fn list_items(s: Seq<char>) -> Seq<Seq<char>> {
    kept_pieces(split_commas(s))
}

proof fn lemma_split_nonempty(s: Seq<char>)
    ensures
        split_commas(s).len() >= 1,
    decreases s.len(),
{
    if s.len() > 0 {
        lemma_split_nonempty(s.drop_last());
    }
}

/// The items of a comma-separated list: split on commas, trimmed, empty
/// items left out.
pub fn split_list(input: &str) -> (r: Vec<String>)
    ensures
        r@.map_values(|x: String| x@) == list_items(input@),
{
    let cs = chars_of(input);
    let ghost s = input@;
    let mut out: Vec<String> = Vec::new();
    let mut cur: Vec<char> = Vec::new();
    let mut i: usize = 0;
    assert(s.take(0) =~= Seq::<char>::empty());
    assert(split_commas(s.take(0)).drop_last() =~= Seq::<Seq<char>>::empty());
    assert(out@.map_values(|x: String| x@) =~= Seq::<Seq<char>>::empty());
    while i < cs.len()
        invariant
            0 <= i <= cs.len(),
            cs@ == s,
            out@.map_values(|x: String| x@) == kept_pieces(split_commas(s.take(i as int)).drop_last()),
            cur@ == split_commas(s.take(i as int)).last(),
        decreases cs.len() - i,
    {
        let ghost prev = split_commas(s.take(i as int));
        proof {
            lemma_split_nonempty(s.take(i as int));
            assert(s.take(i + 1).drop_last() =~= s.take(i as int));
        }
        if cs[i] == ',' {
            let t = trim_chars(cur.as_slice());
            let ghost before = out@;
            if t.len() > 0 {
                out.push(string_of(t.as_slice()));
            }
            proof {
                assert(split_commas(s.take(i + 1)).drop_last() =~= prev);
                assert(prev =~= prev.drop_last().push(prev.last()));
                if t.len() > 0 {
                    assert(out@.map_values(|x: String| x@) =~= before.map_values(|x: String| x@).push(
                        trim(prev.last()),
                    ));
                }
            }
            cur = Vec::new();
            assert(cur@ =~= split_commas(s.take(i + 1)).last());
        } else {
            cur.push(cs[i]);
            proof {
                assert(split_commas(s.take(i + 1)).drop_last() =~= prev.drop_last());
            }
        }
        i = i + 1;
    }
    proof {
        lemma_split_nonempty(s);
        assert(s.take(cs.len() as int) =~= s);
        let ps = split_commas(s);
        assert(ps =~= ps.drop_last().push(ps.last()));
    }
    let t = trim_chars(cur.as_slice());
    let ghost before = out@;
    if t.len() > 0 {
        out.push(string_of(t.as_slice()));
        assert(out@.map_values(|x: String| x@) =~= before.map_values(|x: String| x@).push(t@));
    }
    out
}

pub open spec fn is_separator(c: char) -> bool {
    c == '-' || c == '_' || c == ' '
}

/// The characters with `-`, `_` and spaces left out.
pub open spec fn without_separators(s: Seq<char>) -> Seq<char>
    decreases s.len(),
{
    if s.len() == 0 {
        s
    } else if is_separator(s.last()) {
        without_separators(s.drop_last())
    } else {
        without_separators(s.drop_last()).push(s.last())
    }
}

/// A token as the command line compares it: trimmed, ASCII lower-case,
/// without `-`, `_` and spaces.
pub open spec fn normalized(s: Seq<char>) -> Seq<char> {
    without_separators(lowercase(trim(s)))
}

/// A token trimmed, lower-cased and without `-`, `_` and spaces.
pub fn normalize_token(input: &str) -> (r: String)
    ensures
        r@ == normalized(input@),
{
    let cs = chars_of(input);
    let t = trim_chars(cs.as_slice());
    let l = lowercase_chars(t.as_slice());
    let mut out: Vec<char> = Vec::new();
    let mut i: usize = 0;
    while i < l.len()
        invariant
            0 <= i <= l.len(),
            out@ == without_separators(l@.take(i as int)),
        decreases l.len() - i,
    {
        assert(l@.take(i + 1).drop_last() =~= l@.take(i as int));
        let c = l[i];
        if !(c == '-' || c == '_' || c == ' ') {
            out.push(c);
        }
        i = i + 1;
    }
    assert(l@.take(l.len() as int) =~= l@);
    string_of(out.as_slice())
}

// ---------------------------------------------------------------------------
// Components.
/// The component kind a normalized token names.
pub open spec fn token_component(t: Seq<char>) -> Option<ComponentType> {
    if t == "2d"@ {
        Some(ComponentType::TwoD)
    } else if t == "2dlin"@ || t == "2dlinearized"@ {
        Some(ComponentType::TwoDLinearized)
    } else if t == "3d"@ {
        Some(ComponentType::ThreeD)
    } else if t == "3dres"@ || t == "3dresidual"@ {
        Some(ComponentType::ThreeDResidual)
    } else if t == "3dnolabels"@ {
        Some(ComponentType::ThreeDNoLabels)
    } else if t == "3dnolabelsres"@ || t == "3dnolabelsresidual"@ {
        Some(ComponentType::ThreeDNoLabelsResidual)
    } else if t == "analog"@ {
        Some(ComponentType::Analog)
    } else if t == "analogsingle"@ {
        Some(ComponentType::AnalogSingle)
    } else if t == "force"@ {
        Some(ComponentType::Force)
    } else if t == "forcesingle"@ {
        Some(ComponentType::ForceSingle)
    } else if t == "6d"@ {
        Some(ComponentType::SixD)
    } else if t == "6dres"@ || t == "6dresidual"@ {
        Some(ComponentType::SixDResidual)
    } else if t == "6deuler"@ {
        Some(ComponentType::SixDEuler)
    } else if t == "6deulerres"@ || t == "6deulerresidual"@ {
        Some(ComponentType::SixDEulerResidual)
    } else if t == "image"@ {
        Some(ComponentType::Image)
    } else if t == "gazevector"@ {
        Some(ComponentType::GazeVector)
    } else if t == "eyetracker"@ {
        Some(ComponentType::EyeTracker)
    } else if t == "timecode"@ {
        Some(ComponentType::Timecode)
    } else if t == "skeleton"@ || t == "skeletonglobal"@ || t == "skeleton:global"@ {
        Some(ComponentType::Skeleton)
    } else {
        None
    }
}

/// The selection a normalized token names, beyond its kind: analog
/// selections list no channel, and a skeleton selection is global for
/// `skeletonglobal` and `skeleton:global`.
pub open spec fn selection_details(c: ComponentSelection, t: Seq<char>) -> bool {
    match c {
        ComponentSelection::Analog { channels } => channels@.len() == 0,
        ComponentSelection::AnalogSingle { channels } => channels@.len() == 0,
        ComponentSelection::Skeleton { global } => global == (t == "skeletonglobal"@ || t
            == "skeleton:global"@),
        _ => true,
    }
}

/// The selection `c` is what the token names.
pub open spec fn names_component(t: Seq<char>, c: ComponentSelection) -> bool {
    token_component(t) == Some(c.spec_component_type()) && selection_details(c, t)
}

pub open spec fn unsupported_component(t: Seq<char>) -> Seq<char> {
    "unsupported component '"@ + t + "'"@
}

/// One component of a command-line list, named as in frame commands,
/// with a few longer spellings.
pub fn parse_component(input: &str) -> (r: Result<ComponentSelection, String>)
    ensures
        match r {
            Ok(c) => names_component(normalized(input@), c),
            Err(m) => token_component(normalized(input@)) is None && m@ == unsupported_component(
                normalized(input@),
            ),
        },
{
    let token = normalize_token(input);
    let t = chars_of(token.as_str());
    let t = t.as_slice();
    if chars_eq_str(t, "2d") {
        Ok(ComponentSelection::TwoD)
    } else if chars_eq_str(t, "2dlin") || chars_eq_str(t, "2dlinearized") {
        Ok(ComponentSelection::TwoDLinearized)
    } else if chars_eq_str(t, "3d") {
        Ok(ComponentSelection::ThreeD)
    } else if chars_eq_str(t, "3dres") || chars_eq_str(t, "3dresidual") {
        Ok(ComponentSelection::ThreeDResidual)
    } else if chars_eq_str(t, "3dnolabels") {
        Ok(ComponentSelection::ThreeDNoLabels)
    } else if chars_eq_str(t, "3dnolabelsres") || chars_eq_str(t, "3dnolabelsresidual") {
        Ok(ComponentSelection::ThreeDNoLabelsResidual)
    } else if chars_eq_str(t, "analog") {
        Ok(ComponentSelection::Analog { channels: Vec::new() })
    } else if chars_eq_str(t, "analogsingle") {
        Ok(ComponentSelection::AnalogSingle { channels: Vec::new() })
    } else if chars_eq_str(t, "force") {
        Ok(ComponentSelection::Force)
    } else if chars_eq_str(t, "forcesingle") {
        Ok(ComponentSelection::ForceSingle)
    } else if chars_eq_str(t, "6d") {
        Ok(ComponentSelection::SixD)
    } else if chars_eq_str(t, "6dres") || chars_eq_str(t, "6dresidual") {
        Ok(ComponentSelection::SixDResidual)
    } else if chars_eq_str(t, "6deuler") {
        Ok(ComponentSelection::SixDEuler)
    } else if chars_eq_str(t, "6deulerres") || chars_eq_str(t, "6deulerresidual") {
        Ok(ComponentSelection::SixDEulerResidual)
    } else if chars_eq_str(t, "image") {
        Ok(ComponentSelection::Image)
    } else if chars_eq_str(t, "gazevector") {
        Ok(ComponentSelection::GazeVector)
    } else if chars_eq_str(t, "eyetracker") {
        Ok(ComponentSelection::EyeTracker)
    } else if chars_eq_str(t, "timecode") {
        Ok(ComponentSelection::Timecode)
    } else if chars_eq_str(t, "skeleton") {
        proof {
            reveal_strlit("skeleton");
            reveal_strlit("skeletonglobal");
            reveal_strlit("skeleton:global");
            assert("skeleton"@.len() == 8);
            assert("skeletonglobal"@.len() == 14);
            assert("skeleton:global"@.len() == 15);
        }
        Ok(ComponentSelection::Skeleton { global: false })
    } else if chars_eq_str(t, "skeletonglobal") || chars_eq_str(t, "skeleton:global") {
        Ok(ComponentSelection::Skeleton { global: true })
    } else {
        let mut m = String::new();
        push_str(&mut m, "unsupported component '");
        push_str(&mut m, token.as_str());
        push_str(&mut m, "'");
        Err(m)
    }
}

/// Every item names a component.
pub open spec fn all_components(items: Seq<Seq<char>>) -> bool {
    forall|i: int| 0 <= i < items.len() ==> (#[trigger] token_component(normalized(items[i]))) is Some
}

/// Item `i` is the first that names no component.
pub open spec fn first_bad_component(items: Seq<Seq<char>>, i: int) -> bool {
    &&& 0 <= i < items.len()
    &&& token_component(normalized(items[i])) is None
    &&& all_components(items.take(i))
}

/// A comma-separated component list; every item must name a component and
/// the list must not be empty.
pub fn parse_component_list(input: &str) -> (r: Result<Vec<ComponentSelection>, String>)
    ensures
        match r {
            Ok(v) => list_items(input@).len() > 0 && v.len() == list_items(input@).len() && forall|
                i: int,
            |
                0 <= i < v.len() ==> names_component(normalized(list_items(input@)[i]), #[trigger] v@[i]),
            Err(m) => (exists|i: int|
                first_bad_component(list_items(input@), i) && m@ == unsupported_component(
                    normalized(#[trigger] list_items(input@)[i]),
                )) || (list_items(input@).len() == 0 && m@ == "component list cannot be empty"@),
        },
{
    let items = split_list(input);
    let ghost it = list_items(input@);
    let mut out: Vec<ComponentSelection> = Vec::new();
    let mut i: usize = 0;
    while i < items.len()
        invariant
            0 <= i <= items.len(),
            it == list_items(input@),
            items@.map_values(|x: String| x@) == it,
            out.len() == i,
            forall|k: int| 0 <= k < i ==> names_component(normalized(it[k]), #[trigger] out@[k]),
        decreases items.len() - i,
    {
        assert(it[i as int] == items@[i as int]@);
        match parse_component(items[i].as_str()) {
            Ok(c) => out.push(c),
            Err(m) => {
                assert(first_bad_component(it, i as int)) by {
                    assert forall|k: int| 0 <= k < i implies (#[trigger] token_component(
                        normalized(it.take(i as int)[k]),
                    )) is Some by {
                        assert(it.take(i as int)[k] == it[k]);
                        assert(names_component(normalized(it[k]), out@[k]));
                    }
                }
                return Err(m);
            },
        }
        i = i + 1;
    }
    if out.len() == 0 {
        proof {
            reveal_strlit("component list cannot be empty");
        }
        return Err("component list cannot be empty".to_owned());
    }
    Ok(out)
}

// ---------------------------------------------------------------------------
// Parameter sections.
/// The settings section a normalized token names.
pub open spec fn token_parameter(t: Seq<char>) -> Option<ParameterSelection> {
    if t == "all"@ {
        Some(ParameterSelection::All)
    } else if t == "general"@ {
        Some(ParameterSelection::General)
    } else if t == "3d"@ {
        Some(ParameterSelection::ThreeD)
    } else if t == "6d"@ {
        Some(ParameterSelection::SixD)
    } else if t == "analog"@ {
        Some(ParameterSelection::Analog)
    } else if t == "force"@ {
        Some(ParameterSelection::Force)
    } else if t == "gazevector"@ {
        Some(ParameterSelection::GazeVector)
    } else if t == "eyetracker"@ {
        Some(ParameterSelection::EyeTracker)
    } else if t == "image"@ {
        Some(ParameterSelection::Image)
    } else if t == "skeleton"@ {
        Some(ParameterSelection::Skeleton)
    } else if t == "skeletonglobal"@ || t == "skeleton:global"@ {
        Some(ParameterSelection::SkeletonGlobal)
    } else if t == "calibration"@ {
        Some(ParameterSelection::Calibration)
    } else {
        None
    }
}

pub open spec fn unsupported_parameter(t: Seq<char>) -> Seq<char> {
    "unsupported parameter selection '"@ + t + "'"@
}

/// One settings section of a command-line list.
pub fn parse_parameter(input: &str) -> (r: Result<ParameterSelection, String>)
    ensures
        match r {
            Ok(p) => token_parameter(normalized(input@)) == Some(p),
            Err(m) => token_parameter(normalized(input@)) is None && m@ == unsupported_parameter(
                normalized(input@),
            ),
        },
{
    let token = normalize_token(input);
    let t = chars_of(token.as_str());
    let t = t.as_slice();
    if chars_eq_str(t, "all") {
        Ok(ParameterSelection::All)
    } else if chars_eq_str(t, "general") {
        Ok(ParameterSelection::General)
    } else if chars_eq_str(t, "3d") {
        Ok(ParameterSelection::ThreeD)
    } else if chars_eq_str(t, "6d") {
        Ok(ParameterSelection::SixD)
    } else if chars_eq_str(t, "analog") {
        Ok(ParameterSelection::Analog)
    } else if chars_eq_str(t, "force") {
        Ok(ParameterSelection::Force)
    } else if chars_eq_str(t, "gazevector") {
        Ok(ParameterSelection::GazeVector)
    } else if chars_eq_str(t, "eyetracker") {
        Ok(ParameterSelection::EyeTracker)
    } else if chars_eq_str(t, "image") {
        Ok(ParameterSelection::Image)
    } else if chars_eq_str(t, "skeleton") {
        Ok(ParameterSelection::Skeleton)
    } else if chars_eq_str(t, "skeletonglobal") || chars_eq_str(t, "skeleton:global") {
        Ok(ParameterSelection::SkeletonGlobal)
    } else if chars_eq_str(t, "calibration") {
        Ok(ParameterSelection::Calibration)
    } else {
        let mut m = String::new();
        push_str(&mut m, "unsupported parameter selection '");
        push_str(&mut m, token.as_str());
        push_str(&mut m, "'");
        Err(m)
    }
}

/// Every item names a settings section.
pub open spec fn all_parameters(items: Seq<Seq<char>>) -> bool {
    forall|i: int| 0 <= i < items.len() ==> (#[trigger] token_parameter(normalized(items[i]))) is Some
}

/// Item `i` is the first that names no settings section.
pub open spec fn first_bad_parameter(items: Seq<Seq<char>>, i: int) -> bool {
    &&& 0 <= i < items.len()
    &&& token_parameter(normalized(items[i])) is None
    &&& all_parameters(items.take(i))
}

/// Some item names `all`.
pub open spec fn names_all(items: Seq<Seq<char>>) -> bool {
    exists|i: int| 0 <= i < items.len() && #[trigger] token_parameter(normalized(items[i])) == Some(
        ParameterSelection::All,
    )
}

/// A comma-separated list of settings sections; every item must name a
/// section, the list must not be empty, and `all` stands alone.
pub fn parse_parameter_list(input: &str) -> (r: Result<Vec<ParameterSelection>, String>)
    ensures
        match r {
            Ok(v) => list_items(input@).len() > 0 && v.len() == list_items(input@).len() && (forall|
                i: int,
            |
                0 <= i < v.len() ==> token_parameter(normalized(list_items(input@)[i])) == Some(
                    #[trigger] v@[i],
                )) && !(v.len() > 1 && names_all(list_items(input@))),
            Err(m) => (exists|i: int|
                first_bad_parameter(list_items(input@), i) && m@ == unsupported_parameter(
                    normalized(#[trigger] list_items(input@)[i]),
                )) || (list_items(input@).len() == 0 && m@ == "parameter list cannot be empty"@) || (
            all_parameters(list_items(input@)) && list_items(input@).len() > 1 && names_all(
                list_items(input@),
            ) && m@ == "'all' cannot be combined with other parameter selections"@),
        },
{
    let items = split_list(input);
    let ghost it = list_items(input@);
    let mut out: Vec<ParameterSelection> = Vec::new();
    let mut any_all = false;
    let mut i: usize = 0;
    while i < items.len()
        invariant
            0 <= i <= items.len(),
            it == list_items(input@),
            items@.map_values(|x: String| x@) == it,
            out.len() == i,
            forall|k: int| 0 <= k < i ==> token_parameter(normalized(it[k])) == Some(
                #[trigger] out@[k],
            ),
            any_all == exists|k: int| 0 <= k < i && #[trigger] out@[k] == ParameterSelection::All,
        decreases items.len() - i,
    {
        assert(it[i as int] == items@[i as int]@);
        match parse_parameter(items[i].as_str()) {
            Ok(p) => {
                if let ParameterSelection::All = p {
                    any_all = true;
                }
                let ghost before = out@;
                out.push(p);
                proof {
                    assert(out@[i as int] == p);
                    if exists|k: int| 0 <= k < i && #[trigger] before[k] == ParameterSelection::All {
                        let k = choose|k: int|
                            0 <= k < i && #[trigger] before[k] == ParameterSelection::All;
                        assert(out@[k] == ParameterSelection::All);
                    }
                    if exists|k: int| 0 <= k < i + 1 && #[trigger] out@[k] == ParameterSelection::All {
                        let k = choose|k: int|
                            0 <= k < i + 1 && #[trigger] out@[k] == ParameterSelection::All;
                        if k < i {
                            assert(before[k] == ParameterSelection::All);
                        }
                    }
                }
            },
            Err(m) => {
                assert(first_bad_parameter(it, i as int)) by {
                    assert forall|k: int| 0 <= k < i implies (#[trigger] token_parameter(
                        normalized(it.take(i as int)[k]),
                    )) is Some by {
                        assert(it.take(i as int)[k] == it[k]);
                        assert(token_parameter(normalized(it[k])) == Some(out@[k]));
                    }
                }
                return Err(m);
            },
        }
        i = i + 1;
    }
    if out.len() == 0 {
        proof {
            reveal_strlit("parameter list cannot be empty");
        }
        return Err("parameter list cannot be empty".to_owned());
    }
    assert(all_parameters(it)) by {
        assert forall|k: int| 0 <= k < it.len() implies (#[trigger] token_parameter(
            normalized(it[k]),
        )) is Some by {
            assert(token_parameter(normalized(it[k])) == Some(out@[k]));
        }
    }
    assert(any_all == names_all(it)) by {
        if any_all {
            let k = choose|k: int| 0 <= k < out.len() && #[trigger] out@[k] == ParameterSelection::All;
            assert(token_parameter(normalized(it[k])) == Some(out@[k]));
        }
        if names_all(it) {
            let k = choose|k: int|
                0 <= k < it.len() && #[trigger] token_parameter(normalized(it[k])) == Some(
                    ParameterSelection::All,
                );
            assert(token_parameter(normalized(it[k])) == Some(out@[k]));
        }
    }
    if out.len() > 1 && any_all {
        proof {
            reveal_strlit("'all' cannot be combined with other parameter selections");
        }
        return Err("'all' cannot be combined with other parameter selections".to_owned());
    }
    Ok(out)
}

// ---------------------------------------------------------------------------
// Versions and rates.
/// `d` is the position of the first `.`.
pub open spec fn first_dot(s: Seq<char>, d: int) -> bool {
    0 <= d < s.len() && s[d] == '.' && forall|j: int| 0 <= j < d ==> s[j] != '.'
}

pub open spec fn u32_of(s: Seq<char>) -> Option<u32> {
    match spec_parse_unsigned(s, u32::MAX as nat) {
        Some(v) => Some(v as u32),
        None => None,
    }
}

/// A protocol version written `MAJOR.MINOR`, each an unsigned integer.
pub fn parse_protocol_version(input: &str) -> (r: Result<ProtocolVersion, String>)
    ensures
        match r {
            Ok(v) => exists|d: int|
                first_dot(input@, d) && u32_of(input@.take(d)) == Some(v.major) && u32_of(
                    #[trigger] input@.skip(d + 1),
                ) == Some(v.minor),
            Err(m) => {
                ||| (forall|j: int| 0 <= j < input@.len() ==> input@[j] != '.') && m@
                    == "protocol version must use MAJOR.MINOR format"@
                ||| exists|d: int|
                    first_dot(input@, d) && #[trigger] u32_of(input@.take(d)) is None && m@
                        == "protocol major version must be an unsigned integer"@
                ||| exists|d: int|
                    first_dot(input@, d) && u32_of(input@.take(d)) is Some && #[trigger] u32_of(
                        input@.skip(d + 1),
                    ) is None && m@ == "protocol minor version must be an unsigned integer"@
            },
        },
{
    let cs = chars_of(input);
    let mut d: usize = 0;
    while d < cs.len() && cs[d] != '.'
        invariant
            0 <= d <= cs.len(),
            cs@ == input@,
            forall|j: int| 0 <= j < d ==> cs@[j] != '.',
        decreases cs.len() - d,
    {
        d = d + 1;
    }
    if d == cs.len() {
        proof {
            reveal_strlit("protocol version must use MAJOR.MINOR format");
        }
        return Err("protocol version must use MAJOR.MINOR format".to_owned());
    }
    assert(first_dot(input@, d as int));
    let mut major_chars: Vec<char> = Vec::new();
    let mut k: usize = 0;
    while k < d
        invariant
            0 <= k <= d,
            d < cs.len(),
            major_chars@ == cs@.take(k as int),
        decreases d - k,
    {
        major_chars.push(cs[k]);
        assert(cs@.take(k + 1) =~= cs@.take(k as int).push(cs@[k as int]));
        k = k + 1;
    }
    let mut minor_chars: Vec<char> = Vec::new();
    k = d + 1;
    while k < cs.len()
        invariant
            d + 1 <= k <= cs.len(),
            minor_chars@ == cs@.subrange(d + 1, k as int),
        decreases cs.len() - k,
    {
        minor_chars.push(cs[k]);
        assert(cs@.subrange(d + 1, k + 1) =~= cs@.subrange(d + 1, k as int).push(cs@[k as int]));
        k = k + 1;
    }
    assert(minor_chars@ =~= input@.skip(d + 1));
    let major = match parse_u32(major_chars.as_slice()) {
        Some(v) => v,
        None => {
            proof {
                reveal_strlit("protocol major version must be an unsigned integer");
            }
            assert(u32_of(input@.take(d as int)) is None);
            return Err("protocol major version must be an unsigned integer".to_owned());
        },
    };
    let minor = match parse_u32(minor_chars.as_slice()) {
        Some(v) => v,
        None => {
            proof {
                reveal_strlit("protocol minor version must be an unsigned integer");
            }
            assert(u32_of(input@.skip(d + 1)) is None);
            return Err("protocol minor version must be an unsigned integer".to_owned());
        },
    };
    assert(u32_of(input@.skip(d + 1)) == Some(minor));
    Ok(ProtocolVersion::new(major, minor))
}

/// The characters from position `n` on.
fn skip_chars(s: &[char], n: usize) -> (r: Vec<char>)
    requires
        n <= s.len(),
    ensures
        r@ == s@.skip(n as int),
{
    let mut r: Vec<char> = Vec::new();
    let mut k = n;
    while k < s.len()
        invariant
            n <= k <= s.len(),
            r@ == s@.subrange(n as int, k as int),
        decreases s.len() - k,
    {
        r.push(s[k]);
        assert(s@.subrange(n as int, k + 1) =~= s@.subrange(n as int, k as int).push(s@[k as int]));
        k = k + 1;
    }
    assert(r@ =~= s@.skip(n as int));
    r
}

/// Whether the characters start with `prefix`.
fn starts_with_str(s: &[char], prefix: &str) -> (r: bool)
    ensures
        r == crate::text::starts_with(s@, prefix@),
{
    let p = chars_of(prefix);
    if s.len() < p.len() {
        return false;
    }
    let mut i: usize = 0;
    while i < p.len()
        invariant
            0 <= i <= p.len(),
            p.len() <= s.len(),
            p@ == prefix@,
            forall|k: int| 0 <= k < i ==> s@[k] == p@[k],
        decreases p.len() - i,
    {
        if s[i] != p[i] {
            assert(s@.take(p.len() as int)[i as int] != p@[i as int]);
            return false;
        }
        i = i + 1;
    }
    assert(s@.take(p.len() as int) =~= p@);
    true
}

/// The value after the first of two prefixes that the text starts with.
pub open spec fn after_prefixes(s: Seq<char>, a: Seq<char>, b: Seq<char>) -> Option<Seq<char>> {
    if crate::text::starts_with(s, a) {
        Some(s.skip(a.len() as int))
    } else if crate::text::starts_with(s, b) {
        Some(s.skip(b.len() as int))
    } else {
        None
    }
}

/// What a stream rate argument asks for: `None` for an argument of no
/// known form, `Some(Err(m))` for a known form with a bad number.
pub open spec fn spec_stream_rate(input: Seq<char>) -> Option<Result<StreamRate, Seq<char>>> {
    let n = lowercase(trim(input));
    if n == "all"@ || n == "allframes"@ {
        Some(Ok(StreamRate::AllFrames))
    } else if after_prefixes(n, "frequency:"@, "hz:"@) is Some {
        match u32_of(after_prefixes(n, "frequency:"@, "hz:"@)->0) {
            Some(v) => Some(Ok(StreamRate::Frequency(v))),
            None => Some(Err("frequency must be an unsigned integer"@)),
        }
    } else if after_prefixes(n, "frequencydivisor:"@, "divisor:"@) is Some {
        match u32_of(after_prefixes(n, "frequencydivisor:"@, "divisor:"@)->0) {
            Some(v) => Some(Ok(StreamRate::FrequencyDivisor(v))),
            None => Some(Err("frequency divisor must be an unsigned integer"@)),
        }
    } else {
        None
    }
}

/// A stream rate: `all` or `allframes`, `frequency:<hz>` or `hz:<hz>`,
/// `frequencydivisor:<n>` or `divisor:<n>`, in any ASCII case.
pub fn parse_stream_rate(input: &str) -> (r: Result<StreamRate, String>)
    ensures
        match spec_stream_rate(input@) {
            Some(Ok(rate)) => r == Ok::<StreamRate, String>(rate),
            Some(Err(m)) => r matches Err(e) && e@ == m,
            None => r matches Err(e) && e@ == "stream rate must be allframes, frequency:<hz>, or divisor:<n>"@,
        },
{
    let cs = chars_of(input);
    let t = trim_chars(cs.as_slice());
    let n = lowercase_chars(t.as_slice());
    let n = n.as_slice();
    if chars_eq_str(n, "all") || chars_eq_str(n, "allframes") {
        return Ok(StreamRate::AllFrames);
    }
    let value = if starts_with_str(n, "frequency:") {
        proof {
            reveal_strlit("frequency:");
        }
        Some(skip_chars(n, 10))
    } else if starts_with_str(n, "hz:") {
        proof {
            reveal_strlit("hz:");
        }
        Some(skip_chars(n, 3))
    } else {
        None
    };
    match value {
        Some(v) => {
            return match parse_u32(v.as_slice()) {
                Some(x) => Ok(StreamRate::Frequency(x)),
                None => {
                    proof {
                        reveal_strlit("frequency must be an unsigned integer");
                    }
                    Err("frequency must be an unsigned integer".to_owned())
                },
            };
        },
        None => {},
    }
    let value = if starts_with_str(n, "frequencydivisor:") {
        proof {
            reveal_strlit("frequencydivisor:");
        }
        Some(skip_chars(n, 17))
    } else if starts_with_str(n, "divisor:") {
        proof {
            reveal_strlit("divisor:");
        }
        Some(skip_chars(n, 8))
    } else {
        None
    };
    match value {
        Some(v) => match parse_u32(v.as_slice()) {
            Some(x) => Ok(StreamRate::FrequencyDivisor(x)),
            None => {
                proof {
                    reveal_strlit("frequency divisor must be an unsigned integer");
                }
                Err("frequency divisor must be an unsigned integer".to_owned())
            },
        },
        None => {
            proof {
                reveal_strlit("stream rate must be allframes, frequency:<hz>, or divisor:<n>");
            }
            Err("stream rate must be allframes, frequency:<hz>, or divisor:<n>".to_owned())
        },
    }
}

// ---------------------------------------------------------------------------
// Summaries of decoded components.
/// The sum of `f` over the items.
pub open spec fn total<T>(s: Seq<T>, f: spec_fn(T) -> nat) -> nat
    decreases s.len(),
{
    if s.len() == 0 {
        0
    } else {
        total(s.drop_last(), f) + f(s.last())
    }
}

/// A count and what it counts: `3 markers`.
pub open spec fn phrase(n: nat, noun: Seq<char>) -> Seq<char> {
    decimal(n) + " "@ + noun
}

/// Two counts: `2 cameras, 5 markers`.
pub open spec fn phrases(n: nat, a: Seq<char>, m: nat, b: Seq<char>) -> Seq<char> {
    phrase(n, a) + ", "@ + phrase(m, b)
}

pub open spec fn markers_count() -> spec_fn(Camera2DModel) -> nat {
    |x: Camera2DModel| x.markers.len()
}

pub open spec fn channels_count() -> spec_fn(AnalogDeviceModel) -> nat {
    |x: AnalogDeviceModel| x.channels.len()
}

pub open spec fn analog_samples_count() -> spec_fn(AnalogSingleDeviceModel) -> nat {
    |x: AnalogSingleDeviceModel| x.samples.len()
}

pub open spec fn force_samples_count() -> spec_fn(ForcePlateModel) -> nat {
    |x: ForcePlateModel| x.samples.len()
}

pub open spec fn gaze_samples_count() -> spec_fn(SeriesModel<GazeVectorSample>) -> nat {
    |x: SeriesModel<GazeVectorSample>| x.samples.len()
}

pub open spec fn eye_samples_count() -> spec_fn(SeriesModel<EyeTrackerSample>) -> nat {
    |x: SeriesModel<EyeTrackerSample>| x.samples.len()
}

pub open spec fn image_bytes_count() -> spec_fn(ImageModel) -> nat {
    |x: ImageModel| x.data.len()
}

pub open spec fn segments_count() -> spec_fn(Seq<SkeletonSegment>) -> nat {
    |x: Seq<SkeletonSegment>| x.len()
}

/// The summary the command line prints of a component's data.
pub open spec fn summary(d: ComponentDataModel) -> Seq<char> {
    match d {
        ComponentDataModel::TwoD(c) => phrases(c.items.len(), "cameras"@, total(c.items, markers_count()), "markers"@),
        ComponentDataModel::TwoDLinearized(c) => phrases(
            c.items.len(),
            "cameras"@,
            total(c.items, markers_count()),
            "markers"@,
        ),
        ComponentDataModel::ThreeD(c) => phrase(c.items.len(), "markers"@),
        ComponentDataModel::ThreeDResidual(c) => phrase(c.items.len(), "markers"@),
        ComponentDataModel::ThreeDNoLabels(c) => phrase(c.items.len(), "markers"@),
        ComponentDataModel::ThreeDNoLabelsResidual(c) => phrase(c.items.len(), "markers"@),
        ComponentDataModel::SixD(c) => phrase(c.items.len(), "bodies"@),
        ComponentDataModel::SixDResidual(c) => phrase(c.items.len(), "bodies"@),
        ComponentDataModel::SixDEuler(c) => phrase(c.items.len(), "bodies"@),
        ComponentDataModel::SixDEulerResidual(c) => phrase(c.items.len(), "bodies"@),
        ComponentDataModel::Analog(ds) => phrases(ds.len(), "devices"@, total(ds, channels_count()), "channels"@),
        ComponentDataModel::AnalogSingle(ds) => phrases(
            ds.len(),
            "devices"@,
            total(ds, analog_samples_count()),
            "samples"@,
        ),
        ComponentDataModel::Force(ps) => phrases(ps.len(), "plates"@, total(ps, force_samples_count()), "samples"@),
        ComponentDataModel::ForceSingle(ps) => phrase(ps.len(), "plates"@),
        ComponentDataModel::GazeVector(vs) => phrases(
            vs.len(),
            "vectors"@,
            total(vs, gaze_samples_count()),
            "samples"@,
        ),
        ComponentDataModel::EyeTracker(ts) => phrases(
            ts.len(),
            "trackers"@,
            total(ts, eye_samples_count()),
            "samples"@,
        ),
        ComponentDataModel::Image(is) => phrases(is.len(), "images"@, total(is, image_bytes_count()), "bytes"@),
        ComponentDataModel::Timecode(es) => phrase(es.len(), "entries"@),
        ComponentDataModel::Skeleton(ss) => phrases(
            ss.len(),
            "skeletons"@,
            total(ss, segments_count()),
            "segments"@,
        ),
        ComponentDataModel::Raw(b) => phrase(b.len(), "raw bytes"@),
    }
}

fn markers_total(items: &Vec<crate::packet::Camera2D>) -> (r: u128)
    ensures
        r == total(crate::packet::views(items@), markers_count()),
{
    let ghost m = crate::packet::views(items@);
    let mut sum: u128 = 0;
    let mut i: usize = 0;
    while i < items.len()
        invariant
            0 <= i <= items.len(),
            m == crate::packet::views(items@),
            sum == total(m.take(i as int), markers_count()),
            sum <= i * 0x1_0000_0000_0000_0000,
        decreases items.len() - i,
    {
        assert(m.take(i + 1).drop_last() =~= m.take(i as int));
        assert(m[i as int] == items@[i as int]@);
        sum = sum + items[i].markers.len() as u128;
        i = i + 1;
    }
    assert(m.take(items.len() as int) =~= m);
    sum
}

fn channels_total(items: &Vec<crate::packet::AnalogDevice>) -> (r: u128)
    ensures
        r == total(crate::packet::views(items@), channels_count()),
{
    let ghost m = crate::packet::views(items@);
    let mut sum: u128 = 0;
    let mut i: usize = 0;
    while i < items.len()
        invariant
            0 <= i <= items.len(),
            m == crate::packet::views(items@),
            sum == total(m.take(i as int), channels_count()),
            sum <= i * 0x1_0000_0000_0000_0000,
        decreases items.len() - i,
    {
        assert(m.take(i + 1).drop_last() =~= m.take(i as int));
        assert(m[i as int] == items@[i as int]@);
        sum = sum + items[i].channels.len() as u128;
        i = i + 1;
    }
    assert(m.take(items.len() as int) =~= m);
    sum
}

fn analog_samples_total(items: &Vec<crate::packet::AnalogSingleDevice>) -> (r: u128)
    ensures
        r == total(crate::packet::views(items@), analog_samples_count()),
{
    let ghost m = crate::packet::views(items@);
    let mut sum: u128 = 0;
    let mut i: usize = 0;
    while i < items.len()
        invariant
            0 <= i <= items.len(),
            m == crate::packet::views(items@),
            sum == total(m.take(i as int), analog_samples_count()),
            sum <= i * 0x1_0000_0000_0000_0000,
        decreases items.len() - i,
    {
        assert(m.take(i + 1).drop_last() =~= m.take(i as int));
        assert(m[i as int] == items@[i as int]@);
        sum = sum + items[i].samples.len() as u128;
        i = i + 1;
    }
    assert(m.take(items.len() as int) =~= m);
    sum
}

fn force_samples_total(items: &Vec<crate::packet::ForcePlate>) -> (r: u128)
    ensures
        r == total(crate::packet::views(items@), force_samples_count()),
{
    let ghost m = crate::packet::views(items@);
    let mut sum: u128 = 0;
    let mut i: usize = 0;
    while i < items.len()
        invariant
            0 <= i <= items.len(),
            m == crate::packet::views(items@),
            sum == total(m.take(i as int), force_samples_count()),
            sum <= i * 0x1_0000_0000_0000_0000,
        decreases items.len() - i,
    {
        assert(m.take(i + 1).drop_last() =~= m.take(i as int));
        assert(m[i as int] == items@[i as int]@);
        sum = sum + items[i].samples.len() as u128;
        i = i + 1;
    }
    assert(m.take(items.len() as int) =~= m);
    sum
}

fn gaze_samples_total(items: &Vec<crate::packet::GazeVectorSeries>) -> (r: u128)
    ensures
        r == total(crate::packet::views(items@), gaze_samples_count()),
{
    let ghost m = crate::packet::views(items@);
    let mut sum: u128 = 0;
    let mut i: usize = 0;
    while i < items.len()
        invariant
            0 <= i <= items.len(),
            m == crate::packet::views(items@),
            sum == total(m.take(i as int), gaze_samples_count()),
            sum <= i * 0x1_0000_0000_0000_0000,
        decreases items.len() - i,
    {
        assert(m.take(i + 1).drop_last() =~= m.take(i as int));
        assert(m[i as int] == items@[i as int]@);
        sum = sum + items[i].samples.len() as u128;
        i = i + 1;
    }
    assert(m.take(items.len() as int) =~= m);
    sum
}

fn eye_samples_total(items: &Vec<crate::packet::EyeTrackerSeries>) -> (r: u128)
    ensures
        r == total(crate::packet::views(items@), eye_samples_count()),
{
    let ghost m = crate::packet::views(items@);
    let mut sum: u128 = 0;
    let mut i: usize = 0;
    while i < items.len()
        invariant
            0 <= i <= items.len(),
            m == crate::packet::views(items@),
            sum == total(m.take(i as int), eye_samples_count()),
            sum <= i * 0x1_0000_0000_0000_0000,
        decreases items.len() - i,
    {
        assert(m.take(i + 1).drop_last() =~= m.take(i as int));
        assert(m[i as int] == items@[i as int]@);
        sum = sum + items[i].samples.len() as u128;
        i = i + 1;
    }
    assert(m.take(items.len() as int) =~= m);
    sum
}

fn image_bytes_total(items: &Vec<crate::packet::Image>) -> (r: u128)
    ensures
        r == total(crate::packet::views(items@), image_bytes_count()),
{
    let ghost m = crate::packet::views(items@);
    let mut sum: u128 = 0;
    let mut i: usize = 0;
    while i < items.len()
        invariant
            0 <= i <= items.len(),
            m == crate::packet::views(items@),
            sum == total(m.take(i as int), image_bytes_count()),
            sum <= i * 0x1_0000_0000_0000_0000,
        decreases items.len() - i,
    {
        assert(m.take(i + 1).drop_last() =~= m.take(i as int));
        assert(m[i as int] == items@[i as int]@);
        sum = sum + items[i].data.len() as u128;
        i = i + 1;
    }
    assert(m.take(items.len() as int) =~= m);
    sum
}

fn segments_total(items: &Vec<crate::packet::Skeleton>) -> (r: u128)
    ensures
        r == total(crate::packet::views(items@), segments_count()),
{
    let ghost m = crate::packet::views(items@);
    let mut sum: u128 = 0;
    let mut i: usize = 0;
    while i < items.len()
        invariant
            0 <= i <= items.len(),
            m == crate::packet::views(items@),
            sum == total(m.take(i as int), segments_count()),
            sum <= i * 0x1_0000_0000_0000_0000,
        decreases items.len() - i,
    {
        assert(m.take(i + 1).drop_last() =~= m.take(i as int));
        assert(m[i as int] == items@[i as int]@);
        sum = sum + items[i].segments.len() as u128;
        i = i + 1;
    }
    assert(m.take(items.len() as int) =~= m);
    sum
}

fn phrase_string(n: u128, noun: &str) -> (r: String)
    ensures
        r@ == phrase(n as nat, noun@),
{
    let mut s = String::new();
    push_decimal(&mut s, n);
    push_str(&mut s, " ");
    push_str(&mut s, noun);
    assert(s@ =~= phrase(n as nat, noun@));
    s
}

fn phrases_string(n: u128, a: &str, m: u128, b: &str) -> (r: String)
    ensures
        r@ == phrases(n as nat, a@, m as nat, b@),
{
    let mut s = phrase_string(n, a);
    push_str(&mut s, ", ");
    let t = phrase_string(m, b);
    push_str(&mut s, t.as_str());
    assert(s@ =~= phrases(n as nat, a@, m as nat, b@));
    s
}

/// A one-line summary of a component's data: how many items of each kind
/// it holds.
pub fn summarize_component(data: &ComponentData) -> (r: String)
    ensures
        r@ == summary(data@),
{
    match data {
        ComponentData::TwoD(c) => phrases_string(c.cameras.len() as u128, "cameras", markers_total(&c.cameras), "markers"),
        ComponentData::TwoDLinearized(c) => phrases_string(
            c.cameras.len() as u128,
            "cameras",
            markers_total(&c.cameras),
            "markers",
        ),
        ComponentData::ThreeD(c) => phrase_string(c.markers.len() as u128, "markers"),
        ComponentData::ThreeDResidual(c) => phrase_string(c.markers.len() as u128, "markers"),
        ComponentData::ThreeDNoLabels(c) => phrase_string(c.markers.len() as u128, "markers"),
        ComponentData::ThreeDNoLabelsResidual(c) => phrase_string(c.markers.len() as u128, "markers"),
        ComponentData::SixD(c) => phrase_string(c.bodies.len() as u128, "bodies"),
        ComponentData::SixDResidual(c) => phrase_string(c.bodies.len() as u128, "bodies"),
        ComponentData::SixDEuler(c) => phrase_string(c.bodies.len() as u128, "bodies"),
        ComponentData::SixDEulerResidual(c) => phrase_string(c.bodies.len() as u128, "bodies"),
        ComponentData::Analog(c) => phrases_string(
            c.devices.len() as u128,
            "devices",
            channels_total(&c.devices),
            "channels",
        ),
        ComponentData::AnalogSingle(c) => phrases_string(
            c.devices.len() as u128,
            "devices",
            analog_samples_total(&c.devices),
            "samples",
        ),
        ComponentData::Force(c) => phrases_string(
            c.plates.len() as u128,
            "plates",
            force_samples_total(&c.plates),
            "samples",
        ),
        ComponentData::ForceSingle(c) => phrase_string(c.plates.len() as u128, "plates"),
        ComponentData::GazeVector(c) => phrases_string(
            c.vectors.len() as u128,
            "vectors",
            gaze_samples_total(&c.vectors),
            "samples",
        ),
        ComponentData::EyeTracker(c) => phrases_string(
            c.trackers.len() as u128,
            "trackers",
            eye_samples_total(&c.trackers),
            "samples",
        ),
        ComponentData::Image(c) => phrases_string(
            c.images.len() as u128,
            "images",
            image_bytes_total(&c.images),
            "bytes",
        ),
        ComponentData::Timecode(c) => phrase_string(c.entries.len() as u128, "entries"),
        ComponentData::Skeleton(c) => phrases_string(
            c.skeletons.len() as u128,
            "skeletons",
            segments_total(&c.skeletons),
            "segments",
        ),
        ComponentData::Raw(bytes) => phrase_string(bytes.len() as u128, "raw bytes"),
    }
}

/// The name of a component kind, as `Debug` writes it.
pub open spec fn kind_name(t: ComponentType) -> Seq<char> {
    match t {
        ComponentType::ThreeD => "ThreeD"@,
        ComponentType::ThreeDNoLabels => "ThreeDNoLabels"@,
        ComponentType::Analog => "Analog"@,
        ComponentType::Force => "Force"@,
        ComponentType::SixD => "SixD"@,
        ComponentType::SixDEuler => "SixDEuler"@,
        ComponentType::TwoD => "TwoD"@,
        ComponentType::TwoDLinearized => "TwoDLinearized"@,
        ComponentType::ThreeDResidual => "ThreeDResidual"@,
        ComponentType::ThreeDNoLabelsResidual => "ThreeDNoLabelsResidual"@,
        ComponentType::SixDResidual => "SixDResidual"@,
        ComponentType::SixDEulerResidual => "SixDEulerResidual"@,
        ComponentType::AnalogSingle => "AnalogSingle"@,
        ComponentType::Image => "Image"@,
        ComponentType::ForceSingle => "ForceSingle"@,
        ComponentType::GazeVector => "GazeVector"@,
        ComponentType::Timecode => "Timecode"@,
        ComponentType::Skeleton => "Skeleton"@,
        ComponentType::EyeTracker => "EyeTracker"@,
    }
}

/// The name of a component kind.
pub fn component_type_label(t: ComponentType) -> (r: String)
    ensures
        r@ == kind_name(t),
{
    let name = match t {
        ComponentType::ThreeD => "ThreeD",
        ComponentType::ThreeDNoLabels => "ThreeDNoLabels",
        ComponentType::Analog => "Analog",
        ComponentType::Force => "Force",
        ComponentType::SixD => "SixD",
        ComponentType::SixDEuler => "SixDEuler",
        ComponentType::TwoD => "TwoD",
        ComponentType::TwoDLinearized => "TwoDLinearized",
        ComponentType::ThreeDResidual => "ThreeDResidual",
        ComponentType::ThreeDNoLabelsResidual => "ThreeDNoLabelsResidual",
        ComponentType::SixDResidual => "SixDResidual",
        ComponentType::SixDEulerResidual => "SixDEulerResidual",
        ComponentType::AnalogSingle => "AnalogSingle",
        ComponentType::Image => "Image",
        ComponentType::ForceSingle => "ForceSingle",
        ComponentType::GazeVector => "GazeVector",
        ComponentType::Timecode => "Timecode",
        ComponentType::Skeleton => "Skeleton",
        ComponentType::EyeTracker => "EyeTracker",
    };
    name.to_owned()
}

/// How the command line names a component: its kind, or `component_<id>`
/// for an id of no known kind.
pub open spec fn label(id: u32) -> Seq<char> {
    match ComponentType::spec_from_value(id) {
        Some(t) => kind_name(t),
        None => "component_"@ + decimal(id as nat),
    }
}

/// How the command line names a component.
pub fn component_label(component: &Component) -> (r: String)
    ensures
        r@ == label(component.id),
{
    match component.component_type() {
        Some(t) => component_type_label(t),
        None => {
            let mut s = String::new();
            push_str(&mut s, "component_");
            push_decimal(&mut s, component.id as u128);
            s
        },
    }
}

// ---------------------------------------------------------------------------
// Command words read back as command-line names.
/// A character of a command word: a lower-case letter, a digit or `:`.
pub open spec fn plain_char(c: char) -> bool {
    ('a' <= c && c <= 'z') || ('0' <= c && c <= '9') || c == ':'
}

pub open spec fn plain_word(s: Seq<char>) -> bool {
    forall|i: int| 0 <= i < s.len() ==> plain_char(#[trigger] s[i])
}

proof fn lemma_without_separators_plain(s: Seq<char>)
    requires
        plain_word(s),
    ensures
        without_separators(s) == s,
    decreases s.len(),
{
    if s.len() > 0 {
        assert(plain_char(s[s.len() - 1]));
        assert(plain_word(s.drop_last())) by {
            assert forall|i: int| 0 <= i < s.len() - 1 implies plain_char(#[trigger] s.drop_last()[i]) by {
                assert(s.drop_last()[i] == s[i]);
            }
        }
        lemma_without_separators_plain(s.drop_last());
        assert(s.drop_last().push(s.last()) =~= s);
    }
}

/// A word of plain characters is its own normalized form.
pub proof fn lemma_normalized_plain(s: Seq<char>)
    requires
        plain_word(s),
    ensures
        normalized(s) == s,
        trim(s) == s,
        lowercase(s) == s,
{
    if s.len() > 0 {
        assert(plain_char(s[0]));
        assert(plain_char(s[s.len() - 1]));
    }
    assert(trim_start(s) == s);
    assert(crate::text::trim_end(s) == s);
    assert(lowercase(s) =~= s) by {
        assert forall|i: int| 0 <= i < s.len() implies lowercase(s)[i] == s[i] by {
            assert(plain_char(s[i]));
        }
    }
    lemma_without_separators_plain(s);
}

/// Every settings section is read back from the word that names it in a
/// `GetParameters` command.
pub proof fn law_parameter_words_read_back(p: ParameterSelection)
    ensures
        token_parameter(normalized(p.spec_fragment())) == Some(p),
{
    reveal_strlit("all");
    reveal_strlit("general");
    reveal_strlit("3d");
    reveal_strlit("6d");
    reveal_strlit("analog");
    reveal_strlit("force");
    reveal_strlit("gazevector");
    reveal_strlit("eyetracker");
    reveal_strlit("image");
    reveal_strlit("skeleton");
    reveal_strlit("skeletonglobal");
    reveal_strlit("skeleton:global");
    reveal_strlit("calibration");
    let w = p.spec_fragment();
    assert(plain_word(w));
    lemma_normalized_plain(w);
}

/// Two selections ask for the same thing: the same kind, the same listed
/// channels and the same skeleton frame.
pub open spec fn same_selection(a: ComponentSelection, b: ComponentSelection) -> bool {
    &&& a.spec_component_type() == b.spec_component_type()
    &&& match (a, b) {
        (
            ComponentSelection::Analog { channels: x },
            ComponentSelection::Analog { channels: y },
        ) => x@ == y@,
        (
            ComponentSelection::AnalogSingle { channels: x },
            ComponentSelection::AnalogSingle { channels: y },
        ) => x@ == y@,
        (ComponentSelection::Skeleton { global: g }, ComponentSelection::Skeleton { global: h }) => g
            == h,
        _ => true,
    }
}

/// Every component selection without listed channels is read back from
/// the word that names it in a frame command, and that word names no
/// other selection.
pub proof fn law_component_words_read_back(c: ComponentSelection)
    requires
        c matches ComponentSelection::Analog { channels } ==> channels@.len() == 0,
        c matches ComponentSelection::AnalogSingle { channels } ==> channels@.len() == 0,
    ensures
        names_component(normalized(c.spec_fragment()), c),
        forall|d: ComponentSelection| #[trigger]
            names_component(normalized(c.spec_fragment()), d) ==> same_selection(d, c),
{
    reveal_strlit("2d");
    reveal_strlit("2dlin");
    reveal_strlit("2dlinearized");
    reveal_strlit("3d");
    reveal_strlit("3dres");
    reveal_strlit("3dresidual");
    reveal_strlit("3dnolabels");
    reveal_strlit("3dnolabelsres");
    reveal_strlit("3dnolabelsresidual");
    reveal_strlit("analog");
    reveal_strlit("analogsingle");
    reveal_strlit("force");
    reveal_strlit("forcesingle");
    reveal_strlit("6d");
    reveal_strlit("6dres");
    reveal_strlit("6dresidual");
    reveal_strlit("6deuler");
    reveal_strlit("6deulerres");
    reveal_strlit("6deulerresidual");
    reveal_strlit("image");
    reveal_strlit("gazevector");
    reveal_strlit("eyetracker");
    reveal_strlit("timecode");
    reveal_strlit("skeleton");
    reveal_strlit("skeletonglobal");
    reveal_strlit("skeleton:global");
    let w = c.spec_fragment();
    assert(plain_word(w));
    lemma_normalized_plain(w);
    assert forall|d: ComponentSelection| #[trigger]
        names_component(normalized(w), d) implies same_selection(d, c) by {
        assert(d.spec_component_type() == c.spec_component_type());
        match (d, c) {
            (ComponentSelection::Analog { channels: x }, ComponentSelection::Analog { channels: y }) => {
                assert(x@ =~= y@);
            },
            (
                ComponentSelection::AnalogSingle { channels: x },
                ComponentSelection::AnalogSingle { channels: y },
            ) => {
                assert(x@ =~= y@);
            },
            _ => {},
        }
    }
}


/// A decimal rendering is a run of digits that reads back as its number.
proof fn lemma_decimal_reads_back(n: nat)
    ensures
        decimal(n).len() > 0,
        all_digits(decimal(n)),
        plain_word(decimal(n)),
        digits_value(decimal(n)) == n,
    decreases n,
{
    let d = (n % 10) as nat;
    let c = crate::text::digit_char(d);
    assert(c as u32 == d + 48);
    if n < 10 {
        assert(decimal(n) == seq![c]);
        assert(decimal(n).drop_last() =~= Seq::<char>::empty());
        assert(decimal(n).last() == c);
        assert(digits_value(decimal(n)) == digits_value(decimal(n).drop_last()) * 10 + ((c as u32)
            - 48) as nat);
    } else {
        lemma_decimal_reads_back(n / 10);
        let prev = decimal(n / 10);
        assert(decimal(n) == prev.push(c));
        assert(decimal(n).drop_last() =~= prev);
        assert(decimal(n).last() == c);
        assert(digits_value(decimal(n)) == digits_value(prev) * 10 + ((c as u32) - 48) as nat);
        assert(n == (n / 10) * 10 + n % 10);
        assert forall|i: int| 0 <= i < decimal(n).len() implies is_digit(#[trigger] decimal(n)[i]) by {
            if i < prev.len() {
                assert(decimal(n)[i] == prev[i]);
            }
        }
    }
    assert forall|i: int| 0 <= i < decimal(n).len() implies plain_char(#[trigger] decimal(n)[i]) by {
        assert(is_digit(decimal(n)[i]));
    }
}

/// A prefix followed by a decimal number: its prefix, then the number.
proof fn lemma_prefixed_number(p: Seq<char>, v: u32)
    requires
        plain_word(p),
    ensures
        plain_word(p + decimal(v as nat)),
        crate::text::starts_with(p + decimal(v as nat), p),
        (p + decimal(v as nat)).skip(p.len() as int) == decimal(v as nat),
        u32_of(decimal(v as nat)) == Some(v),
{
    let w = decimal(v as nat);
    lemma_decimal_reads_back(v as nat);
    assert((p + w).take(p.len() as int) =~= p);
    assert((p + w).skip(p.len() as int) =~= w);
    assert forall|i: int| 0 <= i < (p + w).len() implies plain_char(#[trigger] (p + w)[i]) by {
        if i < p.len() {
            assert((p + w)[i] == p[i]);
        } else {
            assert((p + w)[i] == w[i - p.len()]);
        }
    }
    assert(is_digit(w[0]));
    assert(crate::numbers::after_sign(w, false) == w);
}

/// Every stream rate is read back from the word that asks for it in a
/// `StreamFrames` command.
pub proof fn law_stream_rate_words_read_back(r: StreamRate)
    ensures
        spec_stream_rate(r.spec_fragment()) == Some(Ok::<StreamRate, Seq<char>>(r)),
{
    reveal_strlit("all");
    reveal_strlit("allframes");
    reveal_strlit("frequency:");
    reveal_strlit("hz:");
    reveal_strlit("frequencydivisor:");
    reveal_strlit("divisor:");
    let w = r.spec_fragment();
    match r {
        StreamRate::AllFrames => {
            assert(plain_word(w));
            lemma_normalized_plain(w);
        },
        StreamRate::Frequency(v) => {
            lemma_prefixed_number("frequency:"@, v);
            lemma_normalized_plain(w);
            assert(w.len() > 10);
        },
        StreamRate::FrequencyDivisor(v) => {
            lemma_prefixed_number("frequencydivisor:"@, v);
            lemma_normalized_plain(w);
            assert(w.len() > 17);
            assert(w[9] == 'd');
            assert(w.take(10)[9] != "frequency:"@[9]);
            assert(w.take(3)[0] != "hz:"@[0]);
        },
    }
}

} // verus!
