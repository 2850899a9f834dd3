//! Dotted numeric versions: lenient parsing, bumping and formatting.

use vstd::prelude::*;
use vstd::string::*;

verus! {

/// How a version is incremented.
#[derive(Clone, Copy, Debug, PartialEq, Eq, Structural)]
pub enum BumpKind {
    Major,
    Minor,
    Patch,
    /// Leaves the version as it is.
    Keep,
}

/// Largest value a single version segment may hold.
pub const SEGMENT_MAX: u64 = 4294967295;

pub open spec fn is_digit(c: char) -> bool {
    '0' <= c && c <= '9'
}

pub open spec fn digit_value(c: char) -> nat {
    (c as u32 - '0' as u32) as nat
}

pub open spec fn all_digits(s: Seq<char>) -> bool {
    forall|i: int| 0 <= i < s.len() ==> is_digit(#[trigger] s[i])
}

/// The number written by a sequence of decimal digits.
pub open spec fn digits_value(s: Seq<char>) -> nat
    decreases s.len(),
{
    if s.len() == 0 {
        0
    } else {
        digits_value(s.drop_last()) * 10 + digit_value(s.last())
    }
}

/// A segment without its optional leading `+`.
pub open spec fn unsigned_part(s: Seq<char>) -> Seq<char> {
    if s.len() > 0 && s[0] == '+' {
        s.drop_first()
    } else {
        s
    }
}

/// A segment is an unsigned 32-bit number (an optional `+`, then one or more
/// digits, at most `SEGMENT_MAX`), or it counts as zero.
pub open spec fn segment_value(s: Seq<char>) -> nat {
    let d = unsigned_part(s);
    if d.len() > 0 && all_digits(d) && digits_value(d) <= SEGMENT_MAX {
        digits_value(d)
    } else {
        0
    }
}

/// The pieces of `s` between dots; an empty string is one empty piece.
pub open spec fn split_dots(s: Seq<char>) -> Seq<Seq<char>>
    decreases s.len(),
{
    if s.len() == 0 {
        seq![Seq::<char>::empty()]
    } else {
        let prev = split_dots(s.drop_last());
        if s.last() == '.' {
            prev.push(Seq::<char>::empty())
        } else {
            prev.update(prev.len() - 1, prev.last().push(s.last()))
        }
    }
}

/// Component `i` of the version written as `s`: zero where the piece is absent.
pub open spec fn component(s: Seq<char>, i: int) -> nat {
    let parts = split_dots(s);
    if i < parts.len() {
        segment_value(parts[i])
    } else {
        0
    }
}

pub open spec fn digit_char(d: nat) -> char {
    if d == 0 { '0' }
    else if d == 1 { '1' }
    else if d == 2 { '2' }
    else if d == 3 { '3' }
    else if d == 4 { '4' }
    else if d == 5 { '5' }
    else if d == 6 { '6' }
    else if d == 7 { '7' }
    else if d == 8 { '8' }
    else { '9' }
}

/// The decimal notation of `n`, without leading zeros.
pub open spec fn decimal(n: nat) -> Seq<char>
    decreases n,
{
    if n < 10 {
        seq![digit_char(n)]
    } else {
        decimal(n / 10).push(digit_char(n % 10))
    }
}

/// Three components of a version.
#[derive(Clone, Copy, Debug, PartialEq, Eq, Structural)]
pub struct Version {
    pub major: u64,
    pub minor: u64,
    pub patch: u64,
}

impl Version {
    /// Every component fits in a segment.
    pub open spec fn wf(&self) -> bool {
        self.major <= SEGMENT_MAX && self.minor <= SEGMENT_MAX && self.patch <= SEGMENT_MAX
    }

    pub open spec fn parsed(s: Seq<char>) -> Version {
        Version {
            major: component(s, 0) as u64,
            minor: component(s, 1) as u64,
            patch: component(s, 2) as u64,
        }
    }

    pub open spec fn bumped_spec(self, kind: BumpKind) -> Version {
        match kind {
            BumpKind::Major => Version { major: (self.major + 1) as u64, minor: 0, patch: 0 },
            BumpKind::Minor => Version { major: self.major, minor: (self.minor + 1) as u64, patch: 0 },
            BumpKind::Patch => Version { major: self.major, minor: self.minor, patch: (self.patch + 1) as u64 },
            BumpKind::Keep => self,
        }
    }

    pub open spec fn text(self) -> Seq<char> {
        decimal(self.major as nat) + seq!['.'] + decimal(self.minor as nat) + seq!['.']
            + decimal(self.patch as nat)
    }
}


/// Parses one segment as an unsigned 32-bit number; anything else gives zero.
pub fn segment_number(seg: &str) -> (r: u64)
    ensures
        r as nat == segment_value(seg@),
        r <= SEGMENT_MAX,
{
    let n = seg.unicode_len();
    let mut i: usize = 0;
    if n > 0 && seg.get_char(0) == '+' {
        i = 1;
    }
    let ghost d = unsigned_part(seg@);
    let start = i;
    assert(d =~= seg@.subrange(start as int, n as int));
    if start == n {
        return 0;
    }
    let mut acc: u64 = 0;
    let mut over = false;
    while i < n
        invariant
            start <= i <= n,
            n == seg@.len(),
            start < n,
            d == seg@.subrange(start as int, n as int),
            d == unsigned_part(seg@),
            all_digits(d.subrange(0, i - start)),
            over ==> digits_value(d.subrange(0, i - start)) > SEGMENT_MAX,
            !over ==> acc as nat == digits_value(d.subrange(0, i - start)),
            acc <= SEGMENT_MAX,
        decreases n - i,
    {
        let c = seg.get_char(i);
        if !('0' <= c && c <= '9') {
            assert(d[i - start] == c);
            assert(!is_digit(d[i - start]));
            assert(!all_digits(d));
            return 0;
        }
        let ghost p = d.subrange(0, i - start);
        let ghost q = d.subrange(0, i + 1 - start);
        assert(q.drop_last() =~= p);
        assert(q.last() == c);
        let v = (c as u32 - '0' as u32) as u64;
        if !over {
            let next = acc * 10 + v;
            if next > SEGMENT_MAX {
                over = true;
            } else {
                acc = next;
            }
        }
        i = i + 1;
        assert(all_digits(q)) by {
            assert forall|j: int| 0 <= j < q.len() implies is_digit(#[trigger] q[j]) by {
                if j < p.len() {
                    assert(q[j] == p[j]);
                }
            }
        }
    }
    assert(d.subrange(0, n - start) =~= d);
    if over {
        0
    } else {
        acc
    }
}

/// Reads a version leniently: each of the first three dot-separated pieces is
/// a segment number, and a missing piece counts as zero.
pub fn parse_version(s: &str) -> (r: Version)
    ensures
        r == Version::parsed(s@),
        r.wf(),
{
    let n = s.unicode_len();
    let mut vals: Vec<u64> = Vec::new();
    let mut start: usize = 0;
    let mut k: usize = 0;
    let mut i: usize = 0;
    assert(s@.subrange(0, 0) =~= Seq::<char>::empty());
    while i < n
        invariant
            n == s@.len(),
            start <= i <= n,
            k <= i,
            split_dots(s@.subrange(0, i as int)).len() == k + 1,
            split_dots(s@.subrange(0, i as int)).last() == s@.subrange(start as int, i as int),
            vals@.len() == if k < 3 { k } else { 3 },
            forall|j: int|
                0 <= j < vals@.len() ==> vals@[j] as nat == segment_value(
                    #[trigger] split_dots(s@.subrange(0, i as int))[j],
                ),
            forall|j: int| 0 <= j < vals@.len() ==> #[trigger] vals@[j] <= SEGMENT_MAX,
        decreases n - i,
    {
        let c = s.get_char(i);
        let ghost prev = split_dots(s@.subrange(0, i as int));
        let ghost cur = s@.subrange(0, i + 1);
        assert(cur.drop_last() =~= s@.subrange(0, i as int));
        assert(cur.last() == c);
        if c == '.' {
            if k < 3 {
                let piece = s.substring_char(start, i);
                let v = segment_number(piece);
                vals.push(v);
            }
            k = k + 1;
            start = i + 1;
            i = i + 1;
            assert(s@.subrange(start as int, i as int) =~= Seq::<char>::empty());
        } else {
            i = i + 1;
            assert(s@.subrange(start as int, i as int) =~= prev.last().push(c));
        }
    }
    assert(s@.subrange(0, n as int) =~= s@);
    if k < 3 {
        let piece = s.substring_char(start, n);
        let v = segment_number(piece);
        vals.push(v);
    }
    while vals.len() < 3
        invariant
            vals@.len() <= 3,
            vals@.len() >= (if k < 3 { k + 1 } else { 3 }),
            split_dots(s@).len() == k + 1,
            forall|j: int|
                0 <= j < vals@.len() ==> vals@[j] as nat == component(s@, j),
            forall|j: int| 0 <= j < vals@.len() ==> #[trigger] vals@[j] <= SEGMENT_MAX,
        decreases 3 - vals@.len(),
    {
        vals.push(0);
    }
    Version { major: vals[0], minor: vals[1], patch: vals[2] }
}

fn digit_text(d: u64) -> (r: &'static str)
    requires
        d < 10,
    ensures
        r@ == seq![digit_char(d as nat)],
{
    if d == 0 {
        let r = "0";
        proof {
            reveal_strlit("0");
            assert(r@ =~= seq!['0']);
        }
        r
    } else if d == 1 {
        let r = "1";
        proof {
            reveal_strlit("1");
            assert(r@ =~= seq!['1']);
        }
        r
    } else if d == 2 {
        let r = "2";
        proof {
            reveal_strlit("2");
            assert(r@ =~= seq!['2']);
        }
        r
    } else if d == 3 {
        let r = "3";
        proof {
            reveal_strlit("3");
            assert(r@ =~= seq!['3']);
        }
        r
    } else if d == 4 {
        let r = "4";
        proof {
            reveal_strlit("4");
            assert(r@ =~= seq!['4']);
        }
        r
    } else if d == 5 {
        let r = "5";
        proof {
            reveal_strlit("5");
            assert(r@ =~= seq!['5']);
        }
        r
    } else if d == 6 {
        let r = "6";
        proof {
            reveal_strlit("6");
            assert(r@ =~= seq!['6']);
        }
        r
    } else if d == 7 {
        let r = "7";
        proof {
            reveal_strlit("7");
            assert(r@ =~= seq!['7']);
        }
        r
    } else if d == 8 {
        let r = "8";
        proof {
            reveal_strlit("8");
            assert(r@ =~= seq!['8']);
        }
        r
    } else {
        let r = "9";
        proof {
            reveal_strlit("9");
            assert(r@ =~= seq!['9']);
        }
        r
    }
}

/// Appends the decimal notation of `n` to `out`.
fn push_decimal(n: u64, out: &mut String)
    ensures
        final(out)@ == old(out)@ + decimal(n as nat),
    decreases n,
{
    if n < 10 {
        out.append(digit_text(n));
    } else {
        push_decimal(n / 10, out);
        out.append(digit_text(n % 10));
        assert(decimal(n as nat) == decimal((n / 10) as nat).push(digit_char((n % 10) as nat)));
    }
}

impl Version {
    /// Applies a bump: the chosen component goes up by one and the lower
    /// ones return to zero.
    pub fn bumped(&self, kind: BumpKind) -> (r: Version)
        requires
            self.wf(),
        ensures
            r == self.bumped_spec(kind),
    {
        match kind {
            BumpKind::Major => Version { major: self.major + 1, minor: 0, patch: 0 },
            BumpKind::Minor => Version { major: self.major, minor: self.minor + 1, patch: 0 },
            BumpKind::Patch => Version { major: self.major, minor: self.minor, patch: self.patch + 1 },
            BumpKind::Keep => *self,
        }
    }

    /// Writes the version as `major.minor.patch`.
    pub fn format(&self) -> (r: String)
        ensures
            r@ == self.text(),
    {
        let mut out = String::new();
        push_decimal(self.major, &mut out);
        out.append(".");
        push_decimal(self.minor, &mut out);
        out.append(".");
        push_decimal(self.patch, &mut out);
        proof {
            reveal_strlit(".");
            assert(out@ =~= self.text());
        }
        out
    }
}

/// The version that follows `current` under the given bump, as text.
pub fn bump_version(current: &str, bump: &BumpKind) -> (r: String)
    ensures
        r@ == Version::parsed(current@).bumped_spec(*bump).text(),
{
    let v = parse_version(current);
    let b = v.bumped(*bump);
    b.format()
}

proof fn lemma_digit_char(d: nat)
    requires
        d < 10,
    ensures
        is_digit(digit_char(d)),
        digit_value(digit_char(d)) == d,
        digit_char(d) != '.',
        digit_char(d) != '+',
{
}

/// The decimal notation is a nonempty run of digits that reads back as `n`.
proof fn lemma_decimal(n: nat)
    ensures
        decimal(n).len() > 0,
        all_digits(decimal(n)),
        digits_value(decimal(n)) == n,
        decimal(n)[0] != '+',
        !decimal(n).contains('.'),
    decreases n,
{
    if n < 10 {
        lemma_digit_char(n);
        assert(decimal(n).drop_last() =~= Seq::<char>::empty());
        assert(digits_value(decimal(n).drop_last()) == 0);
        assert(decimal(n)[0] == digit_char(n));
    } else {
        lemma_decimal(n / 10);
        lemma_digit_char(n % 10);
        let p = decimal(n / 10);
        let s = decimal(n);
        assert(s.drop_last() =~= p);
        assert(s[0] == p[0]);
        assert(digits_value(s) == (n / 10) * 10 + n % 10);
        assert forall|i: int| 0 <= i < s.len() implies is_digit(#[trigger] s[i]) by {
            if i < p.len() {
                assert(s[i] == p[i]);
            }
        }
        if s.contains('.') {
            let i = choose|i: int| 0 <= i < s.len() && s[i] == '.';
            if i < p.len() {
                assert(p[i] == '.');
            }
        }
    }
}

/// A string without dots is a single piece.
proof fn lemma_split_no_dot(x: Seq<char>)
    requires
        !x.contains('.'),
    ensures
        split_dots(x) == seq![x],
    decreases x.len(),
{
    if x.len() > 0 {
        let p = x.drop_last();
        assert(!p.contains('.')) by {
            if p.contains('.') {
                let i = choose|i: int| 0 <= i < p.len() && p[i] == '.';
                assert(x[i] == '.');
            }
        }
        lemma_split_no_dot(p);
        assert(x[x.len() - 1] != '.');
        assert(p.push(x.last()) =~= x);
        assert(split_dots(x) =~= seq![x]);
    } else {
        assert(x =~= Seq::<char>::empty());
    }
}

/// Splitting at a dot splits the pieces on either side.
proof fn lemma_split_at_dot(p: Seq<char>, q: Seq<char>)
    ensures
        split_dots(p + seq!['.'] + q) == split_dots(p) + split_dots(q),
    decreases q.len(),
{
    let s = p + seq!['.'] + q;
    if q.len() == 0 {
        assert(s.drop_last() =~= p);
        assert(split_dots(q) =~= seq![Seq::<char>::empty()]);
        assert(split_dots(s) =~= split_dots(p) + split_dots(q));
    } else {
        let qd = q.drop_last();
        lemma_split_at_dot(p, qd);
        lemma_split_len(qd);
        assert(s.drop_last() =~= p + seq!['.'] + qd);
        assert(s.last() == q.last());
        let a = split_dots(p);
        let b = split_dots(qd);
        if q.last() == '.' {
            assert((a + b).push(Seq::<char>::empty()) =~= a + b.push(Seq::<char>::empty()));
        } else {
            assert((a + b).last() == b.last());
            assert((a + b).update((a + b).len() - 1, b.last().push(q.last())) =~= a + b.update(
                b.len() - 1,
                b.last().push(q.last()),
            ));
        }
    }
}

proof fn lemma_split_len(s: Seq<char>)
    ensures
        split_dots(s).len() >= 1,
    decreases s.len(),
{
    if s.len() > 0 {
        lemma_split_len(s.drop_last());
    }
}

/// A segment written in decimal reads back as its value.
proof fn lemma_segment_of_decimal(n: nat)
    requires
        n <= SEGMENT_MAX,
    ensures
        segment_value(decimal(n)) == n,
{
    lemma_decimal(n);
}

/// Reading the text of a version gives the version back, so bumping parsed
/// text raises the chosen component by one, zeroes the lower ones, and leaves
/// the version as it is under `Keep`.
pub proof fn lemma_bump_text(v: Version, kind: BumpKind)
    requires
        v.wf(),
    ensures
        Version::parsed(v.text()) == v,
        Version::parsed(v.text()).bumped_spec(kind).text() == v.bumped_spec(kind).text(),
        kind == BumpKind::Major ==> v.bumped_spec(kind) == (Version {
            major: (v.major + 1) as u64,
            minor: 0,
            patch: 0,
        }),
        kind == BumpKind::Minor ==> v.bumped_spec(kind) == (Version {
            major: v.major,
            minor: (v.minor + 1) as u64,
            patch: 0,
        }),
        kind == BumpKind::Patch ==> v.bumped_spec(kind) == (Version {
            major: v.major,
            minor: v.minor,
            patch: (v.patch + 1) as u64,
        }),
        kind == BumpKind::Keep ==> Version::parsed(v.text()).bumped_spec(kind).text() == v.text(),
{
    let a = decimal(v.major as nat);
    let b = decimal(v.minor as nat);
    let c = decimal(v.patch as nat);
    lemma_decimal(v.major as nat);
    lemma_decimal(v.minor as nat);
    lemma_decimal(v.patch as nat);
    lemma_split_no_dot(a);
    lemma_split_no_dot(b);
    lemma_split_no_dot(c);
    lemma_split_at_dot(a, b);
    lemma_split_at_dot(a + seq!['.'] + b, c);
    assert(v.text() == (a + seq!['.'] + b) + seq!['.'] + c);
    let parts = split_dots(v.text());
    assert(parts =~= seq![a, b, c]);
    lemma_segment_of_decimal(v.major as nat);
    lemma_segment_of_decimal(v.minor as nat);
    lemma_segment_of_decimal(v.patch as nat);
}

/// Reading never fails: every string gives three components that fit in a
/// segment, and a piece that is missing or is not a number gives zero.
pub proof fn lemma_parse_total(s: Seq<char>)
    ensures
        Version::parsed(s).wf(),
        forall|i: int|
            0 <= i < 3 && (i >= split_dots(s).len() || !all_digits(
                unsigned_part(split_dots(s)[i]),
            ) || unsigned_part(split_dots(s)[i]).len() == 0) ==> #[trigger] component(s, i) == 0,
{
}

} // verus!
