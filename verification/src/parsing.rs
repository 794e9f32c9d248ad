//! Parsing of the human-readable pattern notation: splitting on separator
//! characters, recognising turn-letter runs and heading names, and building
//! validated patterns from free-form text.

use vstd::prelude::*;

use crate::hex_pattern::{
    coords_spec, has_overlap, HexAbsoluteDir, HexDir, HexError, HexPattern,
};

verus! {

/// The separator characters of the notation: whitespace, colon, semicolon,
/// comma and parentheses.
pub open spec fn is_sep(c: char) -> bool {
    c == ':' || c == ';' || c == ',' || c == '(' || c == ')' || is_space(c)
}

/// The whitespace characters recognised between tokens.
pub open spec fn is_space(c: char) -> bool {
    c == ' ' || c == '\t' || c == '\n' || c == '\u{b}' || c == '\u{c}' || c == '\r' || c
        == '\u{85}' || c == '\u{a0}' || c == '\u{1680}' || ('\u{2000}' <= c && c <= '\u{200a}')
        || c == '\u{2028}' || c == '\u{2029}' || c == '\u{202f}' || c == '\u{205f}' || c
        == '\u{3000}'
}

fn is_sep_char(c: char) -> (r: bool)
    ensures
        r == is_sep(c),
{
    c == ':' || c == ';' || c == ',' || c == '(' || c == ')' || c == ' ' || c == '\t' || c == '\n'
        || c == '\u{b}' || c == '\u{c}' || c == '\r' || c == '\u{85}' || c == '\u{a0}' || c
        == '\u{1680}' || ('\u{2000}' <= c && c <= '\u{200a}') || c == '\u{2028}' || c == '\u{2029}'
        || c == '\u{202f}' || c == '\u{205f}' || c == '\u{3000}'
}

/// The characters of a string, in order.
pub fn str_chars(s: &str) -> (r: Vec<char>)
    ensures
        r@ == s@,
{
    let n = s.unicode_len();
    let mut out: Vec<char> = Vec::new();
    let mut i: usize = 0;
    while i < n
        invariant
            n == s@.len(),
            0 <= i <= n,
            out@.len() == i,
            forall|j: int| 0 <= j < i ==> out@[j] == s@[j],
        decreases n - i,
    {
        out.push(s.get_char(i));
        i = i + 1;
    }
    proof {
        assert(out@ =~= s@);
    }
    out
}

/// The views of a sequence of character vectors.
pub open spec fn char_vec_views(vs: Seq<Vec<char>>) -> Seq<Seq<char>> {
    vs.map_values(|v: Vec<char>| v@)
}

/// The non-empty runs between separators, scanned left to right with the
/// run in progress and the runs already closed.
pub open spec fn split_acc(s: Seq<char>, cur: Seq<char>, acc: Seq<Seq<char>>) -> Seq<Seq<char>>
    decreases s.len(),
{
    if s.len() == 0 {
        if cur.len() == 0 {
            acc
        } else {
            acc.push(cur)
        }
    } else if is_sep(s[0]) {
        if cur.len() == 0 {
            split_acc(s.drop_first(), Seq::empty(), acc)
        } else {
            split_acc(s.drop_first(), Seq::empty(), acc.push(cur))
        }
    } else {
        split_acc(s.drop_first(), cur.push(s[0]), acc)
    }
}

/// The non-empty runs of non-separator characters of `s`, in order.
pub open spec fn split_parts(s: Seq<char>) -> Seq<Seq<char>> {
    split_acc(s, Seq::empty(), Seq::empty())
}

/// Splits text into its non-empty runs of non-separator characters.
pub fn split_into_parts(chars: &Vec<char>) -> (parts: Vec<Vec<char>>)
    ensures
        char_vec_views(parts@) == split_parts(chars@),
        forall|j: int|
            0 <= j < parts@.len() ==> (#[trigger] parts@[j])@.len() <= chars@.len(),
{
    let n = chars.len();
    let mut cur: Vec<char> = Vec::new();
    let mut acc: Vec<Vec<char>> = Vec::new();
    let mut i: usize = 0;
    proof {
        assert(chars@.skip(0) =~= chars@);
        assert(char_vec_views(acc@) =~= Seq::<Seq<char>>::empty());
        assert(cur@ =~= Seq::<char>::empty());
    }
    while i < n
        invariant
            n == chars@.len(),
            0 <= i <= n,
            cur@.len() <= i,
            forall|j: int| 0 <= j < acc@.len() ==> (#[trigger] acc@[j])@.len() <= n,
            split_parts(chars@) == split_acc(
                chars@.skip(i as int),
                cur@,
                char_vec_views(acc@),
            ),
        decreases n - i,
    {
        let c = chars[i];
        let ghost pre_cur = cur@;
        let ghost pre_acc = char_vec_views(acc@);
        if is_sep_char(c) {
            if cur.len() > 0 {
                acc.push(cur);
                cur = Vec::new();
                proof {
                    assert(char_vec_views(acc@) =~= pre_acc.push(pre_cur));
                    assert(cur@ =~= Seq::<char>::empty());
                }
            } else {
                proof {
                    assert(cur@ =~= Seq::<char>::empty());
                }
            }
        } else {
            cur.push(c);
        }
        proof {
            assert(chars@.skip(i as int).drop_first() =~= chars@.skip(i as int + 1));
            assert(chars@.skip(i as int)[0] == chars@[i as int]);
            assert(split_acc(chars@.skip(i as int), pre_cur, pre_acc) == split_acc(
                chars@.skip(i as int + 1),
                cur@,
                char_vec_views(acc@),
            ));
        }
        i = i + 1;
    }
    proof {
        assert(chars@.skip(n as int) =~= Seq::<char>::empty());
    }
    let ghost pre_cur = cur@;
    let ghost pre_acc = char_vec_views(acc@);
    if cur.len() > 0 {
        acc.push(cur);
        proof {
            assert(char_vec_views(acc@) =~= pre_acc.push(pre_cur));
        }
    }
    acc
}

/// The ten letters that spell relative turns.
pub open spec fn is_angle_char(c: char) -> bool {
    c == 'a' || c == 'q' || c == 'w' || c == 'e' || c == 'd' || c == 'A' || c == 'Q' || c == 'W'
        || c == 'E' || c == 'D'
}

/// The turn a letter spells; letters outside the ten map to `W`.
pub open spec fn angle_dir(c: char) -> HexDir {
    if c == 'a' || c == 'A' {
        HexDir::A
    } else if c == 'q' || c == 'Q' {
        HexDir::Q
    } else if c == 'e' || c == 'E' {
        HexDir::E
    } else if c == 'd' || c == 'D' {
        HexDir::D
    } else {
        HexDir::W
    }
}

/// A non-empty run made of turn letters only.
pub open spec fn part_is_angles(p: Seq<char>) -> bool {
    p.len() > 0 && (forall|i: int| 0 <= i < p.len() ==> is_angle_char(#[trigger] p[i]))
}

/// The turns a run of letters spells.
pub open spec fn angles_of(p: Seq<char>) -> Seq<HexDir> {
    p.map_values(|c: char| angle_dir(c))
}

/// Whether `p` equals a name letter by letter, each position in either
/// case.
pub open spec fn matches_ci(p: Seq<char>, up: Seq<char>, low: Seq<char>) -> bool {
    p.len() == up.len() && up.len() == low.len() && (forall|i: int|
        0 <= i < p.len() ==> (#[trigger] p[i]) == up[i] || p[i] == low[i])
}

/// `p` with every underscore dropped.
pub open spec fn drop_underscores(p: Seq<char>) -> Seq<char>
    decreases p.len(),
{
    if p.len() == 0 {
        Seq::empty()
    } else if p.last() == '_' {
        drop_underscores(p.drop_last())
    } else {
        drop_underscores(p.drop_last()).push(p.last())
    }
}

/// The heading a run names, underscores ignored and case-insensitive, or
/// `None` when it names none.
pub open spec fn dir_name_of(p: Seq<char>) -> Option<HexAbsoluteDir> {
    let f = drop_underscores(p);
    if matches_ci(f, "EAST"@, "east"@) {
        Some(HexAbsoluteDir::East)
    } else if matches_ci(f, "SOUTHEAST"@, "southeast"@) {
        Some(HexAbsoluteDir::SouthEast)
    } else if matches_ci(f, "SOUTHWEST"@, "southwest"@) {
        Some(HexAbsoluteDir::SouthWest)
    } else if matches_ci(f, "WEST"@, "west"@) {
        Some(HexAbsoluteDir::West)
    } else if matches_ci(f, "NORTHWEST"@, "northwest"@) {
        Some(HexAbsoluteDir::NorthWest)
    } else if matches_ci(f, "NORTHEAST"@, "northeast"@) {
        Some(HexAbsoluteDir::NorthEast)
    } else {
        None
    }
}

/// What a scan of the runs has gathered: the last run of turn letters, and
/// the last run that named a heading.
pub ghost struct ScanAcc {
    pub angles: Option<Seq<HexDir>>,
    pub start: Option<HexAbsoluteDir>,
}

/// Scans the runs left to right: a run of turn letters replaces the
/// gathered turns, a heading name replaces the gathered heading, any other
/// run changes nothing.
pub open spec fn scan_parts(parts: Seq<Seq<char>>) -> ScanAcc
    decreases parts.len(),
{
    if parts.len() == 0 {
        ScanAcc { angles: None, start: None }
    } else {
        let prev = scan_parts(parts.drop_last());
        let p = parts.last();
        if part_is_angles(p) {
            ScanAcc { angles: Some(angles_of(p)), ..prev }
        } else if dir_name_of(p) is Some {
            ScanAcc { start: dir_name_of(p), ..prev }
        } else {
            prev
        }
    }
}

/// What parsing a text yields: the scanned heading and turns, then the
/// validated pattern construction; no heading at all rejects the text.
pub open spec fn parse_result(s: Seq<char>, r: Result<HexPattern, HexError>) -> bool {
    let acc = scan_parts(split_parts(s));
    match acc.start {
        None => r == Err::<HexPattern, HexError>(HexError::InvalidString),
        Some(sd) => {
            let turns = match acc.angles {
                Some(a) => a,
                None => Seq::empty(),
            };
            if has_overlap(coords_spec(sd, turns)) {
                r == Err::<HexPattern, HexError>(HexError::Overlap)
            } else {
                r matches Ok(p) && p.start_dir == sd && p.pattern_vec@ == turns
            }
        },
    }
}

/// Whether a run is made of turn letters only.
fn check_is_angles(p: &Vec<char>) -> (r: bool)
    ensures
        r == part_is_angles(p@),
{
    if p.len() == 0 {
        return false;
    }
    let n = p.len();
    let mut i: usize = 0;
    while i < n
        invariant
            n == p@.len(),
            0 <= i <= n,
            forall|j: int| 0 <= j < i ==> is_angle_char(#[trigger] p@[j]),
        decreases n - i,
    {
        let c = p[i];
        if !(c == 'a' || c == 'q' || c == 'w' || c == 'e' || c == 'd' || c == 'A' || c == 'Q' || c
            == 'W' || c == 'E' || c == 'D') {
            return false;
        }
        i = i + 1;
    }
    true
}

/// The turns a run of letters spells.
fn angles_vec(p: &Vec<char>) -> (r: Vec<HexDir>)
    ensures
        r@ == angles_of(p@),
{
    let n = p.len();
    let mut out: Vec<HexDir> = Vec::new();
    let mut i: usize = 0;
    while i < n
        invariant
            n == p@.len(),
            0 <= i <= n,
            out@.len() == i,
            forall|j: int| 0 <= j < i ==> out@[j] == angle_dir(#[trigger] p@[j]),
        decreases n - i,
    {
        let c = p[i];
        let d = if c == 'a' || c == 'A' {
            HexDir::A
        } else if c == 'q' || c == 'Q' {
            HexDir::Q
        } else if c == 'e' || c == 'E' {
            HexDir::E
        } else if c == 'd' || c == 'D' {
            HexDir::D
        } else {
            HexDir::W
        };
        out.push(d);
        i = i + 1;
    }
    proof {
        assert(out@ =~= angles_of(p@));
    }
    out
}

/// `p` with every underscore dropped.
fn drop_underscores_vec(p: &Vec<char>) -> (r: Vec<char>)
    ensures
        r@ == drop_underscores(p@),
{
    let n = p.len();
    let mut out: Vec<char> = Vec::new();
    let mut i: usize = 0;
    while i < n
        invariant
            n == p@.len(),
            0 <= i <= n,
            out@ == drop_underscores(p@.take(i as int)),
        decreases n - i,
    {
        let c = p[i];
        proof {
            let t = p@.take(i as int + 1);
            assert(t.drop_last() =~= p@.take(i as int));
            assert(t.last() == p@[i as int]);
        }
        if !(c == '_') {
            out.push(c);
        }
        i = i + 1;
    }
    proof {
        assert(p@.take(n as int) =~= p@);
    }
    out
}

/// Whether `p` equals a name letter by letter, each position in either
/// case.
fn eq_ci(p: &Vec<char>, up: &str, low: &str) -> (r: bool)
    ensures
        r == matches_ci(p@, up@, low@),
{
    let nu = up.unicode_len();
    let nl = low.unicode_len();
    if p.len() != nu || nu != nl {
        return false;
    }
    let n = p.len();
    let mut i: usize = 0;
    while i < n
        invariant
            n == p@.len(),
            n == up@.len(),
            n == low@.len(),
            0 <= i <= n,
            forall|j: int| 0 <= j < i ==> (#[trigger] p@[j]) == up@[j] || p@[j] == low@[j],
        decreases n - i,
    {
        let c = p[i];
        let cu = up.get_char(i);
        let cl = low.get_char(i);
        if !(c == cu || c == cl) {
            return false;
        }
        i = i + 1;
    }
    true
}

/// The heading a run names, or `None`.
fn dir_name_lookup(p: &Vec<char>) -> (r: Option<HexAbsoluteDir>)
    ensures
        r == dir_name_of(p@),
{
    let f = drop_underscores_vec(p);
    if eq_ci(&f, "EAST", "east") {
        Some(HexAbsoluteDir::East)
    } else if eq_ci(&f, "SOUTHEAST", "southeast") {
        Some(HexAbsoluteDir::SouthEast)
    } else if eq_ci(&f, "SOUTHWEST", "southwest") {
        Some(HexAbsoluteDir::SouthWest)
    } else if eq_ci(&f, "WEST", "west") {
        Some(HexAbsoluteDir::West)
    } else if eq_ci(&f, "NORTHWEST", "northwest") {
        Some(HexAbsoluteDir::NorthWest)
    } else if eq_ci(&f, "NORTHEAST", "northeast") {
        Some(HexAbsoluteDir::NorthEast)
    } else {
        None
    }
}

/// Parses pattern notation from the characters of a text.
fn parse_chars(chars: &Vec<char>) -> (r: Result<HexPattern, HexError>)
    requires
        chars@.len() <= 0x1000_0000,
    ensures
        parse_result(chars@, r),
{
    let parts = split_into_parts(chars);
    let mut angles: Option<Vec<HexDir>> = None;
    let mut start_dir: Option<HexAbsoluteDir> = None;
    let n = parts.len();
    let mut i: usize = 0;
    proof {
        assert(char_vec_views(parts@).take(0) =~= Seq::<Seq<char>>::empty());
    }
    while i < n
        invariant
            n == parts@.len(),
            char_vec_views(parts@) == split_parts(chars@),
            forall|j: int|
                0 <= j < parts@.len() ==> (#[trigger] parts@[j])@.len() <= chars@.len(),
            chars@.len() <= 0x1000_0000,
            0 <= i <= n,
            ({
                let acc = scan_parts(char_vec_views(parts@).take(i as int));
                ((match angles {
                    Some(v) => acc.angles == Some(v@),
                    None => acc.angles is None,
                }) && (match start_dir {
                    Some(d) => acc.start == Some(d),
                    None => acc.start is None,
                }))
            }),
            (match angles {
                Some(v) => v@.len() <= chars@.len(),
                None => true,
            }),
        decreases n - i,
    {
        let p = &parts[i];
        proof {
            let t = char_vec_views(parts@).take(i as int + 1);
            assert(t.drop_last() =~= char_vec_views(parts@).take(i as int));
            assert(t.last() == char_vec_views(parts@)[i as int]);
            assert(char_vec_views(parts@)[i as int] == parts@[i as int]@);
        }
        if check_is_angles(p) {
            angles = Some(angles_vec(p));
        } else {
            match dir_name_lookup(p) {
                Some(d) => {
                    start_dir = Some(d);
                },
                None => {},
            }
        }
        i = i + 1;
    }
    proof {
        assert(char_vec_views(parts@).take(n as int) =~= char_vec_views(parts@));
    }
    let sd = match start_dir {
        Some(d) => d,
        None => {
            return Err(HexError::InvalidString);
        },
    };
    let turns = match angles {
        Some(v) => v,
        None => Vec::new(),
    };
    HexPattern::hex_pattern(sd, turns)
}

/// Parses pattern notation: the last run of turn letters gives the turns,
/// the last run naming a heading gives the start, and the pattern is then
/// validated against overlap.
pub fn parse_to_hex_pattern(string: &str) -> (r: Result<HexPattern, HexError>)
    requires
        string@.len() <= 0x1000_0000,
    ensures
        parse_result(string@, r),
{
    let chars = str_chars(string);
    parse_chars(&chars)
}

/// ASCII upper case of one character; all others stay as they are.
pub open spec fn char_upper(c: char) -> char {
    match c {
        'a' => 'A',
        'b' => 'B',
        'c' => 'C',
        'd' => 'D',
        'e' => 'E',
        'f' => 'F',
        'g' => 'G',
        'h' => 'H',
        'i' => 'I',
        'j' => 'J',
        'k' => 'K',
        'l' => 'L',
        'm' => 'M',
        'n' => 'N',
        'o' => 'O',
        'p' => 'P',
        'q' => 'Q',
        'r' => 'R',
        's' => 'S',
        't' => 'T',
        'u' => 'U',
        'v' => 'V',
        'w' => 'W',
        'x' => 'X',
        'y' => 'Y',
        'z' => 'Z',
        _ => c,
    }
}

/// ASCII upper case of a text.
pub open spec fn upper_text(s: Seq<char>) -> Seq<char> {
    s.map_values(|c: char| char_upper(c))
}

fn to_upper_chars(v: &Vec<char>) -> (r: Vec<char>)
    ensures
        r@ == upper_text(v@),
{
    let n = v.len();
    let mut out: Vec<char> = Vec::new();
    let mut i: usize = 0;
    while i < n
        invariant
            n == v@.len(),
            0 <= i <= n,
            out@.len() == i,
            forall|j: int| 0 <= j < i ==> out@[j] == char_upper(#[trigger] v@[j]),
        decreases n - i,
    {
        let c = v[i];
        let u = match c {
            'a' => 'A',
            'b' => 'B',
            'c' => 'C',
            'd' => 'D',
            'e' => 'E',
            'f' => 'F',
            'g' => 'G',
            'h' => 'H',
            'i' => 'I',
            'j' => 'J',
            'k' => 'K',
            'l' => 'L',
            'm' => 'M',
            'n' => 'N',
            'o' => 'O',
            'p' => 'P',
            'q' => 'Q',
            'r' => 'R',
            's' => 'S',
            't' => 'T',
            'u' => 'U',
            'v' => 'V',
            'w' => 'W',
            'x' => 'X',
            'y' => 'Y',
            'z' => 'Z',
            _ => c,
        };
        out.push(u);
        i = i + 1;
    }
    proof {
        assert(out@ =~= upper_text(v@));
    }
    out
}

/// `pat` occurs in `s` starting at position `i`.
pub open spec fn contains_at(s: Seq<char>, pat: Seq<char>, i: int) -> bool {
    0 <= i && i + pat.len() <= s.len() && s.subrange(i, i + pat.len()) == pat
}

/// `pat` occurs somewhere in `s`.
pub open spec fn contains_seq(s: Seq<char>, pat: Seq<char>) -> bool {
    exists|i: int| #[trigger] contains_at(s, pat, i)
}

fn contains_pat(s: &Vec<char>, pat: &str) -> (r: bool)
    ensures
        r == contains_seq(s@, pat@),
{
    let m = pat.unicode_len();
    let n = s.len();
    if m > n {
        proof {
            assert forall|i: int| !(#[trigger] contains_at(s@, pat@, i)) by {}
        }
        return false;
    }
    let mut i: usize = 0;
    while i <= n - m
        invariant
            n == s@.len(),
            m == pat@.len(),
            m <= n,
            0 <= i <= n - m + 1,
            forall|i2: int| 0 <= i2 < i ==> !(#[trigger] contains_at(s@, pat@, i2)),
        decreases n - i,
    {
        let mut j: usize = 0;
        let mut all_eq = true;
        while j < m
            invariant
                n == s@.len(),
                m == pat@.len(),
                0 <= i <= n - m,
                0 <= j <= m,
                all_eq == (forall|j2: int|
                    0 <= j2 < j ==> (#[trigger] s@[i + j2]) == pat@[j2]),
            decreases m - j,
        {
            let ghost pre = all_eq;
            if !(s[i + j] == pat.get_char(j)) {
                all_eq = false;
            }
            proof {
                if all_eq {
                    assert forall|j2: int| 0 <= j2 < j + 1 implies (#[trigger] s@[i + j2])
                        == pat@[j2] by {}
                }
            }
            j = j + 1;
        }
        if all_eq {
            proof {
                assert forall|k: int|
                    0 <= k < m implies s@.subrange(i as int, i as int + m as int)[k]
                    == pat@[k] by {
                    assert(s@[i + k] == pat@[k]);
                }
                assert(s@.subrange(i as int, i as int + m as int) =~= pat@);
                assert(contains_at(s@, pat@, i as int));
            }
            return true;
        }
        proof {
            if contains_at(s@, pat@, i as int) {
                assert(s@.subrange(i as int, i + m) == pat@);
                let j0 = choose|j2: int| 0 <= j2 < m && s@[i + j2] != pat@[j2];
                assert(s@.subrange(i as int, i + m)[j0] == s@[i + j0]);
            }
        }
        i = i + 1;
    }
    proof {
        assert forall|i2: int| !(#[trigger] contains_at(s@, pat@, i2)) by {
            if 0 <= i2 <= n - m {
                assert(!contains_at(s@, pat@, i2));
            }
        }
    }
    false
}

/// One step of the bracket-aware comma remapping: parentheses move the
/// nesting level (a close clamps it to at most zero), a comma at level
/// zero stays and otherwise becomes a semicolon, a semicolon at a
/// non-negative level stays and otherwise becomes a comma.
pub open spec fn remap_acc(s: Seq<char>, ind: int) -> Seq<char>
    decreases s.len(),
{
    if s.len() == 0 {
        Seq::empty()
    } else {
        let c = s[0];
        let ni = if c == '(' {
            ind + 1
        } else if c == ')' {
            if ind - 1 < 0 {
                ind - 1
            } else {
                0
            }
        } else {
            ind
        };
        let m = if c == ',' {
            if ind == 0 {
                ','
            } else {
                ';'
            }
        } else if c == ';' {
            if ind >= 0 {
                ';'
            } else {
                ','
            }
        } else {
            c
        };
        seq![m] + remap_acc(s.drop_first(), ni)
    }
}

/// The bracket-aware comma remapping of a text, from level zero.
pub open spec fn remap(s: Seq<char>) -> Seq<char> {
    remap_acc(s, 0)
}

fn remap_chars(v: &Vec<char>) -> (r: Vec<char>)
    requires
        v@.len() <= 0x1000_0000,
    ensures
        r@ == remap(v@),
        r@.len() == v@.len(),
{
    let n = v.len();
    let mut out: Vec<char> = Vec::new();
    let mut indent: i32 = 0;
    let mut i: usize = 0;
    proof {
        assert(v@.skip(0) =~= v@);
    }
    while i < n
        invariant
            n == v@.len(),
            n <= 0x1000_0000,
            0 <= i <= n,
            out@.len() == i,
            -(i as int) <= indent <= i,
            remap(v@) == out@ + remap_acc(v@.skip(i as int), indent as int),
        decreases n - i,
    {
        let c = v[i];
        let ghost pre_out = out@;
        let ghost pre_ind = indent as int;
        let old_indent = indent;
        if c == '(' {
            indent = indent + 1;
        } else if c == ')' {
            indent = indent - 1;
            if indent > 0 {
                indent = 0;
            }
        }
        let m = if c == ',' {
            if old_indent == 0 {
                ','
            } else {
                ';'
            }
        } else if c == ';' {
            if old_indent >= 0 {
                ';'
            } else {
                ','
            }
        } else {
            c
        };
        out.push(m);
        proof {
            assert(v@.skip(i as int).drop_first() =~= v@.skip(i as int + 1));
            assert(v@.skip(i as int)[0] == v@[i as int]);
            assert(remap_acc(v@.skip(i as int), pre_ind) == seq![m] + remap_acc(
                v@.skip(i as int + 1),
                indent as int,
            ));
            assert(pre_out + (seq![m] + remap_acc(v@.skip(i as int + 1), indent as int)) =~= out@
                + remap_acc(v@.skip(i as int + 1), indent as int));
        }
        i = i + 1;
    }
    proof {
        assert(v@.skip(n as int) =~= Seq::<char>::empty());
        assert(out@ + Seq::<char>::empty() =~= out@);
    }
    out
}

/// The parts of `s` between occurrences of `sep`, empties kept: one part
/// more than there are separators.
pub open spec fn split_on_acc(s: Seq<char>, sep: char, cur: Seq<char>, acc: Seq<Seq<char>>) -> Seq<
    Seq<char>,
>
    decreases s.len(),
{
    if s.len() == 0 {
        acc.push(cur)
    } else if s[0] == sep {
        split_on_acc(s.drop_first(), sep, Seq::empty(), acc.push(cur))
    } else {
        split_on_acc(s.drop_first(), sep, cur.push(s[0]), acc)
    }
}

/// The parts of `s` between occurrences of `sep`, empties kept.
pub open spec fn split_on(s: Seq<char>, sep: char) -> Seq<Seq<char>> {
    split_on_acc(s, sep, Seq::empty(), Seq::empty())
}

fn split_on_vec(chars: &Vec<char>, sep: char) -> (parts: Vec<Vec<char>>)
    ensures
        char_vec_views(parts@) == split_on(chars@, sep),
        forall|j: int|
            0 <= j < parts@.len() ==> (#[trigger] parts@[j])@.len() <= chars@.len(),
{
    let n = chars.len();
    let mut cur: Vec<char> = Vec::new();
    let mut acc: Vec<Vec<char>> = Vec::new();
    let mut i: usize = 0;
    proof {
        assert(chars@.skip(0) =~= chars@);
        assert(char_vec_views(acc@) =~= Seq::<Seq<char>>::empty());
        assert(cur@ =~= Seq::<char>::empty());
    }
    while i < n
        invariant
            n == chars@.len(),
            0 <= i <= n,
            cur@.len() <= i,
            forall|j: int| 0 <= j < acc@.len() ==> (#[trigger] acc@[j])@.len() <= n,
            split_on(chars@, sep) == split_on_acc(
                chars@.skip(i as int),
                sep,
                cur@,
                char_vec_views(acc@),
            ),
        decreases n - i,
    {
        let c = chars[i];
        let ghost pre_cur = cur@;
        let ghost pre_acc = char_vec_views(acc@);
        if c == sep {
            acc.push(cur);
            cur = Vec::new();
            proof {
                assert(char_vec_views(acc@) =~= pre_acc.push(pre_cur));
                assert(cur@ =~= Seq::<char>::empty());
            }
        } else {
            cur.push(c);
        }
        proof {
            assert(chars@.skip(i as int).drop_first() =~= chars@.skip(i as int + 1));
            assert(chars@.skip(i as int)[0] == chars@[i as int]);
            assert(split_on_acc(chars@.skip(i as int), sep, pre_cur, pre_acc) == split_on_acc(
                chars@.skip(i as int + 1),
                sep,
                cur@,
                char_vec_views(acc@),
            ));
        }
        i = i + 1;
    }
    proof {
        assert(chars@.skip(n as int) =~= Seq::<char>::empty());
    }
    let ghost pre_acc = char_vec_views(acc@);
    let ghost pre_cur = cur@;
    acc.push(cur);
    proof {
        assert(char_vec_views(acc@) =~= pre_acc.push(pre_cur));
    }
    acc
}

/// One entry of a parsed listing: a pattern where the entry parsed as one,
/// and a plain marker text where it did not.
#[derive(PartialEq, Debug)]
pub enum ParsedEntry {
    Pattern(HexPattern),
    Text(String),
}

/// What one listing entry yields: the pattern its text parses to, or the
/// `UNKNOWN` marker where it parses to none.
pub open spec fn entry_result(e: Seq<char>, ent: ParsedEntry) -> bool {
    let acc = scan_parts(split_parts(e));
    match acc.start {
        None => ent matches ParsedEntry::Text(t) && t@ == "UNKNOWN"@,
        Some(sd) => {
            let turns = match acc.angles {
                Some(a) => a,
                None => Seq::empty(),
            };
            if has_overlap(coords_spec(sd, turns)) {
                ent matches ParsedEntry::Text(t) && t@ == "UNKNOWN"@
            } else {
                ent matches ParsedEntry::Pattern(p) && p.start_dir == sd && p.pattern_vec@ == turns
            }
        },
    }
}

/// The entry texts a listing splits into: upper-cased; split on commas
/// after the bracket-aware remapping when it speaks of patterns by name,
/// else split on line breaks.
pub open spec fn list_entries(s: Seq<char>) -> Seq<Seq<char>> {
    let up = upper_text(s);
    if contains_seq(up, "HEX_PATTERN"@) || contains_seq(up, "HEXPATTERN"@) {
        split_on(remap(up), ',')
    } else {
        split_on(up, '\n')
    }
}

/// Parses a listing of patterns: each entry yields the pattern it spells,
/// or the `UNKNOWN` marker where it spells none.
pub fn parse_to_list(string: &str) -> (r: Result<Vec<ParsedEntry>, HexError>)
    requires
        string@.len() <= 0x1000_0000,
    ensures
        (r matches Ok(es) && es@.len() == list_entries(string@).len() && (forall|j: int|
            0 <= j < es@.len() ==> entry_result(list_entries(string@)[j], #[trigger] es@[j]))),
{
    let chars = str_chars(string);
    let up = to_upper_chars(&chars);
    let parts: Vec<Vec<char>> = if contains_pat(&up, "HEX_PATTERN") || contains_pat(
        &up,
        "HEXPATTERN",
    ) {
        let rm = remap_chars(&up);
        split_on_vec(&rm, ',')
    } else {
        split_on_vec(&up, '\n')
    };
    proof {
        assert(char_vec_views(parts@) == list_entries(string@));
    }
    let n = parts.len();
    let mut out: Vec<ParsedEntry> = Vec::new();
    let mut i: usize = 0;
    while i < n
        invariant
            n == parts@.len(),
            char_vec_views(parts@) == list_entries(string@),
            forall|j: int|
                0 <= j < parts@.len() ==> (#[trigger] parts@[j])@.len() <= 0x1000_0000,
            0 <= i <= n,
            out@.len() == i,
            forall|j: int|
                0 <= j < i ==> entry_result(char_vec_views(parts@)[j], #[trigger] out@[j]),
        decreases n - i,
    {
        let entry = match parse_chars(&parts[i]) {
            Ok(p) => ParsedEntry::Pattern(p),
            Err(_) => ParsedEntry::Text(String::from_str("UNKNOWN")),
        };
        out.push(entry);
        proof {
            assert(char_vec_views(parts@)[i as int] == parts@[i as int]@);
        }
        i = i + 1;
    }
    Ok(out)
}

impl HexPattern {
    /// Parses pattern notation; see [`parse_to_hex_pattern`].
    pub fn parse_string(string: &str) -> (r: Result<HexPattern, HexError>)
        requires
            string@.len() <= 0x1000_0000,
        ensures
            parse_result(string@, r),
    {
        parse_to_hex_pattern(string)
    }
}

} // verus!
