//! Canonical text for values, lists, stacks and patterns, the engine's one
//! outbound surface: every form is pinned by a spec function over the
//! mathematical images.

use vstd::prelude::*;

use crate::fp::{double_text, double_text_of};
use crate::hex_pattern::{HexAbsoluteDir, HexDir, HexPattern, PatternVal};
use crate::simulator::{
    iota_val, iota_vals, lemma_iota_vals, Iota, IotaList, IotaVal, ListVal, StackState, StackVal,
    VectorIota,
};

verus! {

/// The letter of a relative turn in value text, as drawn: upper case.
pub open spec fn dir_letter(d: HexDir) -> Seq<char> {
    match d {
        HexDir::A => "A"@,
        HexDir::Q => "Q"@,
        HexDir::W => "W"@,
        HexDir::E => "E"@,
        HexDir::D => "D"@,
    }
}

fn dir_letter_str(d: &HexDir) -> (r: &'static str)
    ensures
        r@ == dir_letter(*d),
{
    match d {
        HexDir::A => "A",
        HexDir::Q => "Q",
        HexDir::W => "W",
        HexDir::E => "E",
        HexDir::D => "D",
    }
}

/// The letters of a turn sequence, in order.
pub open spec fn dirs_text(ds: Seq<HexDir>) -> Seq<char>
    decreases ds.len(),
{
    if ds.len() == 0 {
        Seq::empty()
    } else {
        dirs_text(ds.drop_last()) + dir_letter(ds.last())
    }
}

/// The plain name of a heading in value text.
pub open spec fn abs_dir_name(d: HexAbsoluteDir) -> Seq<char> {
    match d {
        HexAbsoluteDir::East => "East"@,
        HexAbsoluteDir::SouthEast => "SouthEast"@,
        HexAbsoluteDir::SouthWest => "SouthWest"@,
        HexAbsoluteDir::West => "West"@,
        HexAbsoluteDir::NorthWest => "NorthWest"@,
        HexAbsoluteDir::NorthEast => "NorthEast"@,
    }
}

fn abs_dir_name_str(d: HexAbsoluteDir) -> (r: &'static str)
    ensures
        r@ == abs_dir_name(d),
{
    match d {
        HexAbsoluteDir::East => "East",
        HexAbsoluteDir::SouthEast => "SouthEast",
        HexAbsoluteDir::SouthWest => "SouthWest",
        HexAbsoluteDir::West => "West",
        HexAbsoluteDir::NorthWest => "NorthWest",
        HexAbsoluteDir::NorthEast => "NorthEast",
    }
}

/// The text of a pattern value: its letters and its start heading.
pub open spec fn pattern_text(p: PatternVal) -> Seq<char> {
    "HexPattern("@ + dirs_text(p.turns) + ", "@ + abs_dir_name(p.start_dir) + ")"@
}

/// One decimal digit.
pub open spec fn digit_text(d: nat) -> Seq<char> {
    if d == 0 {
        "0"@
    } else if d == 1 {
        "1"@
    } else if d == 2 {
        "2"@
    } else if d == 3 {
        "3"@
    } else if d == 4 {
        "4"@
    } else if d == 5 {
        "5"@
    } else if d == 6 {
        "6"@
    } else if d == 7 {
        "7"@
    } else if d == 8 {
        "8"@
    } else {
        "9"@
    }
}

fn digit_str(d: u64) -> (r: &'static str)
    requires
        d < 10,
    ensures
        r@ == digit_text(d as nat),
{
    match d {
        0 => "0",
        1 => "1",
        2 => "2",
        3 => "3",
        4 => "4",
        5 => "5",
        6 => "6",
        7 => "7",
        8 => "8",
        _ => "9",
    }
}

/// The decimal rendering of an unsigned number.
pub open spec fn dec_text(n: nat) -> Seq<char>
    decreases n,
{
    if n < 10 {
        digit_text(n)
    } else {
        dec_text(n / 10) + digit_text(n % 10)
    }
}

/// Renders an unsigned number in decimal.
pub fn u64_text(n: u64) -> (r: String)
    ensures
        r@ == dec_text(n as nat),
    decreases n,
{
    if n < 10 {
        String::from_str(digit_str(n))
    } else {
        let mut s = u64_text(n / 10);
        s.append(digit_str(n % 10));
        s
    }
}

/// `true` or `false`.
pub open spec fn bool_text(b: bool) -> Seq<char> {
    if b {
        "true"@
    } else {
        "false"@
    }
}

/// The canonical text of a value: a double as decimal or the unknown
/// marker; a vector as its parenthesised components, or the unknown form
/// with its range guarantee; the unit marker as `Null`; a list in
/// brackets; an entity as its name; a pattern by its letters and heading.
pub open spec fn iota_text(v: IotaVal) -> Seq<char>
    decreases v,
{
    match v {
        IotaVal::Pattern(p) => pattern_text(p),
        IotaVal::Double(d) => match d {
            Some(bits) => double_text(bits),
            None => "UNKOWN"@,
        },
        IotaVal::Vector(vi) => match vi {
            VectorIota::Known(x, y, z) => "("@ + double_text(x) + ", "@ + double_text(y) + ", "@
                + double_text(z) + ")"@,
            VectorIota::Unknown(f) => "(UNKNOWN, UNKNOWN, UNKNOWN ; guaranteed in range: "@
                + bool_text(f) + ")"@,
        },
        IotaVal::Widget => "Null"@,
        IotaVal::List(l) => list_text(l),
        IotaVal::Entity(e) => e.name@,
    }
}

/// The canonical text of a list value.
pub open spec fn list_text(l: ListVal) -> Seq<char>
    decreases l,
{
    match l {
        ListVal::Known(items) => "["@ + items_text(items) + "]"@,
        ListVal::Unknown(n) => "[UNKOWN, len="@ + (match n {
            Some(k) => dec_text(k as nat),
            None => "UNKOWN"@,
        }) + "]"@,
    }
}

/// Comma-joined element texts.
pub open spec fn items_text(items: Seq<IotaVal>) -> Seq<char>
    decreases items,
{
    if items.len() == 0 {
        Seq::empty()
    } else if items.len() == 1 {
        iota_text(items[0])
    } else {
        items_text(items.drop_last()) + ", "@ + iota_text(items.last())
    }
}

/// Newline-joined element texts, bottom of the stack first.
pub open spec fn stack_items_text(items: Seq<IotaVal>) -> Seq<char>
    decreases items,
{
    if items.len() == 0 {
        Seq::empty()
    } else if items.len() == 1 {
        iota_text(items[0])
    } else {
        stack_items_text(items.drop_last()) + "\n"@ + iota_text(items.last())
    }
}

/// The canonical text of one possible world: its stack entries joined by
/// newlines.
pub open spec fn stack_text(s: StackVal) -> Seq<char> {
    stack_items_text(s.stack)
}

impl Iota {
    /// Renders the value in its canonical text form.
    pub fn canonical_text(&self) -> (r: String)
        ensures
            r@ == iota_text(iota_val(*self)),
        decreases *self,
    {
        match self {
            Iota::Pattern(p) => {
                let mut s = String::from_str("HexPattern(");
                let n = p.pattern_vec.len();
                let mut k: usize = 0;
                while k < n
                    invariant
                        n == p.pattern_vec@.len(),
                        0 <= k <= n,
                        s@ == "HexPattern("@ + dirs_text(p.pattern_vec@.take(k as int)),
                    decreases n - k,
                {
                    s.append(dir_letter_str(&p.pattern_vec[k]));
                    proof {
                        let t = p.pattern_vec@.take(k as int + 1);
                        assert(t.drop_last() =~= p.pattern_vec@.take(k as int));
                        assert(t.last() == p.pattern_vec@[k as int]);
                        assert(s@ =~= "HexPattern("@ + dirs_text(t));
                    }
                    k = k + 1;
                }
                proof {
                    assert(p.pattern_vec@.take(n as int) =~= p.pattern_vec@);
                }
                s.append(", ");
                s.append(abs_dir_name_str(p.start_dir));
                s.append(")");
                proof {
                    assert(s@ =~= pattern_text(p@));
                }
                s
            },
            Iota::Double(d) => match d {
                Some(bits) => double_text_of(*bits),
                None => String::from_str("UNKOWN"),
            },
            Iota::Vector(vi) => match vi {
                VectorIota::Known(x, y, z) => {
                    let mut s = String::from_str("(");
                    let tx = double_text_of(*x);
                    s.append(tx.as_str());
                    s.append(", ");
                    let ty = double_text_of(*y);
                    s.append(ty.as_str());
                    s.append(", ");
                    let tz = double_text_of(*z);
                    s.append(tz.as_str());
                    s.append(")");
                    proof {
                        assert(s@ =~= iota_text(iota_val(*self)));
                    }
                    s
                },
                VectorIota::Unknown(f) => {
                    let mut s = String::from_str(
                        "(UNKNOWN, UNKNOWN, UNKNOWN ; guaranteed in range: ",
                    );
                    s.append(if *f {
                        "true"
                    } else {
                        "false"
                    });
                    s.append(")");
                    proof {
                        assert(s@ =~= iota_text(iota_val(*self)));
                    }
                    s
                },
            },
            Iota::Widget => String::from_str("Null"),
            Iota::List(l) => l.canonical_text(),
            Iota::Entity(e) => e.name.clone(),
        }
    }
}

impl IotaList {
    /// Renders the list in its canonical text form.
    pub fn canonical_text(&self) -> (r: String)
        ensures
            r@ == list_text(crate::simulator::list_val(*self)),
        decreases *self,
    {
        match self {
            IotaList::Known(v) => {
                let mut s = String::from_str("[");
                let n = v.len();
                let mut k: usize = 0;
                proof {
                    lemma_iota_vals(v@);
                }
                while k < n
                    invariant
                        *self == IotaList::Known(*v),
                        n == v@.len(),
                        0 <= k <= n,
                        iota_vals(v@).len() == n,
                        forall|j: int| 0 <= j < n ==> iota_vals(v@)[j] == iota_val(v@[j]),
                        s@ == "["@ + items_text(iota_vals(v@).take(k as int)),
                    decreases n - k,
                {
                    if k > 0 {
                        s.append(", ");
                    }
                    proof {
                        assert(decreases_to!(*self => (*self)->Known_0));
                        assert((*self)->Known_0 == *v);
                        assert(decreases_to!(*v => v@[k as int]));
                    }
                    let t = v[k].canonical_text();
                    s.append(t.as_str());
                    proof {
                        let pre = iota_vals(v@).take(k as int);
                        let now = iota_vals(v@).take(k as int + 1);
                        assert(now.drop_last() =~= pre);
                        assert(now.last() == iota_vals(v@)[k as int]);
                        if k == 0 {
                            assert(now.len() == 1);
                            assert(now[0] == iota_vals(v@)[0]);
                            assert(s@ =~= "["@ + items_text(now));
                        } else {
                            assert(s@ =~= "["@ + items_text(now));
                        }
                    }
                    k = k + 1;
                }
                proof {
                    assert(iota_vals(v@).take(n as int) =~= iota_vals(v@));
                }
                s.append("]");
                proof {
                    assert(s@ =~= list_text(crate::simulator::list_val(*self)));
                }
                s
            },
            IotaList::Unknown(n) => {
                let mut s = String::from_str("[UNKOWN, len=");
                match n {
                    Some(k) => {
                        let t = u64_text(*k as u64);
                        s.append(t.as_str());
                    },
                    None => {
                        s.append("UNKOWN");
                    },
                }
                s.append("]");
                proof {
                    assert(s@ =~= list_text(crate::simulator::list_val(*self)));
                }
                s
            },
        }
    }
}

impl StackState {
    /// Renders the world's stack, entries joined by newlines, bottom first.
    pub fn canonical_text(&self) -> (r: String)
        ensures
            r@ == stack_text(self@),
    {
        let mut s = String::new();
        let n = self.stack.len();
        let mut k: usize = 0;
        proof {
            lemma_iota_vals(self.stack@);
        }
        while k < n
            invariant
                n == self.stack@.len(),
                0 <= k <= n,
                iota_vals(self.stack@).len() == n,
                forall|j: int|
                    0 <= j < n ==> iota_vals(self.stack@)[j] == iota_val(self.stack@[j]),
                s@ == stack_items_text(iota_vals(self.stack@).take(k as int)),
            decreases n - k,
        {
            if k > 0 {
                s.append("\n");
            }
            let t = self.stack[k].canonical_text();
            s.append(t.as_str());
            proof {
                let pre = iota_vals(self.stack@).take(k as int);
                let now = iota_vals(self.stack@).take(k as int + 1);
                assert(now.drop_last() =~= pre);
                assert(now.last() == iota_vals(self.stack@)[k as int]);
                if k == 0 {
                    assert(now.len() == 1);
                    assert(now[0] == iota_vals(self.stack@)[0]);
                }
                assert(s@ =~= stack_items_text(now));
            }
            k = k + 1;
        }
        proof {
            assert(iota_vals(self.stack@).take(n as int) =~= iota_vals(self.stack@));
        }
        s
    }
}

/// The letter of a relative turn in pattern notation: lower case.
pub open spec fn dir_char_spec(d: HexDir) -> char {
    match d {
        HexDir::A => 'a',
        HexDir::Q => 'q',
        HexDir::W => 'w',
        HexDir::E => 'e',
        HexDir::D => 'd',
    }
}

/// The lower-case letter of a relative turn.
pub fn hex_dir_char(dir: &HexDir) -> (c: char)
    ensures
        c == dir_char_spec(*dir),
{
    match dir {
        HexDir::A => 'a',
        HexDir::Q => 'q',
        HexDir::W => 'w',
        HexDir::E => 'e',
        HexDir::D => 'd',
    }
}

fn dir_char_str(d: &HexDir) -> (r: &'static str)
    ensures
        r@ == low_dir_letter(*d),
{
    match d {
        HexDir::A => "a",
        HexDir::Q => "q",
        HexDir::W => "w",
        HexDir::E => "e",
        HexDir::D => "d",
    }
}

/// The lower-case letter of a relative turn, as text.
pub open spec fn low_dir_letter(d: HexDir) -> Seq<char> {
    match d {
        HexDir::A => "a"@,
        HexDir::Q => "q"@,
        HexDir::W => "w"@,
        HexDir::E => "e"@,
        HexDir::D => "d"@,
    }
}

/// The letters of a turn sequence in pattern notation, in order.
pub open spec fn low_dirs_text(ds: Seq<HexDir>) -> Seq<char>
    decreases ds.len(),
{
    if ds.len() == 0 {
        Seq::empty()
    } else {
        low_dirs_text(ds.drop_last()) + low_dir_letter(ds.last())
    }
}

/// The name of a heading in pattern notation.
pub open spec fn abs_dir_upper(d: HexAbsoluteDir) -> Seq<char> {
    match d {
        HexAbsoluteDir::East => "EAST"@,
        HexAbsoluteDir::SouthEast => "SOUTH_EAST"@,
        HexAbsoluteDir::SouthWest => "SOUTH_WEST"@,
        HexAbsoluteDir::West => "WEST"@,
        HexAbsoluteDir::NorthWest => "NORTH_WEST"@,
        HexAbsoluteDir::NorthEast => "NORTH_EAST"@,
    }
}

/// The upper-case name of a heading in pattern notation.
pub fn hex_absolute_dir_str(dir: HexAbsoluteDir) -> (r: &'static str)
    ensures
        r@ == abs_dir_upper(dir),
{
    match dir {
        HexAbsoluteDir::East => "EAST",
        HexAbsoluteDir::SouthEast => "SOUTH_EAST",
        HexAbsoluteDir::SouthWest => "SOUTH_WEST",
        HexAbsoluteDir::West => "WEST",
        HexAbsoluteDir::NorthWest => "NORTH_WEST",
        HexAbsoluteDir::NorthEast => "NORTH_EAST",
    }
}

/// The notation form of a pattern: lower-case letters and the heading's
/// upper-case name.
pub open spec fn hex_pattern_notation(p: PatternVal) -> Seq<char> {
    "HexPattern("@ + low_dirs_text(p.turns) + ", "@ + abs_dir_upper(p.start_dir) + ")"@
}

impl HexPattern {
    /// Renders the pattern in its notation form.
    pub fn canonical_text(&self) -> (r: String)
        ensures
            r@ == hex_pattern_notation(self@),
    {
        let mut s = String::from_str("HexPattern(");
        let n = self.pattern_vec.len();
        let mut k: usize = 0;
        while k < n
            invariant
                n == self.pattern_vec@.len(),
                0 <= k <= n,
                s@ == "HexPattern("@ + low_dirs_text(self.pattern_vec@.take(k as int)),
            decreases n - k,
        {
            s.append(dir_char_str(&self.pattern_vec[k]));
            proof {
                let t = self.pattern_vec@.take(k as int + 1);
                assert(t.drop_last() =~= self.pattern_vec@.take(k as int));
                assert(t.last() == self.pattern_vec@[k as int]);
                assert(s@ =~= "HexPattern("@ + low_dirs_text(t));
            }
            k = k + 1;
        }
        proof {
            assert(self.pattern_vec@.take(n as int) =~= self.pattern_vec@);
        }
        s.append(", ");
        s.append(hex_absolute_dir_str(self.start_dir));
        s.append(")");
        proof {
            assert(s@ =~= hex_pattern_notation(self@));
        }
        s
    }
}

} // verus!
