//! Text helpers: the headline of a message, and the order of names.

use vstd::prelude::*;
use vstd::string::*;

verus! {

/// Whether a character is blank: the Unicode `White_Space` property.
pub open spec fn is_blank(c: char) -> bool {
    let n = c as int;
    ||| 0x9 <= n <= 0xD
    ||| n == 0x20
    ||| n == 0x85
    ||| n == 0xA0
    ||| n == 0x1680
    ||| 0x2000 <= n <= 0x200A
    ||| n == 0x2028
    ||| n == 0x2029
    ||| n == 0x202F
    ||| n == 0x205F
    ||| n == 0x3000
}

/// Whether every character of a text is blank.
pub open spec fn all_blank(s: Seq<char>) -> bool {
    forall|i: int| 0 <= i < s.len() ==> is_blank(#[trigger] s[i])
}

/// A text without its leading blanks.
pub open spec fn trim_start(s: Seq<char>) -> Seq<char>
    decreases s.len(),
{
    if s.len() > 0 && is_blank(s[0]) {
        trim_start(s.drop_first())
    } else {
        s
    }
}

/// A text without its trailing blanks.
pub open spec fn trim_end(s: Seq<char>) -> Seq<char>
    decreases s.len(),
{
    if s.len() > 0 && is_blank(s.last()) {
        trim_end(s.drop_last())
    } else {
        s
    }
}

/// The part of a text before its first line feed.
pub open spec fn before_newline(s: Seq<char>) -> Seq<char>
    decreases s.len(),
{
    if s.len() == 0 || s[0] == '\n' {
        Seq::empty()
    } else {
        seq![s[0]] + before_newline(s.drop_first())
    }
}

/// The first line of a text that is not blank, without the blanks around it;
/// empty for a blank text. A line feed is itself blank, so that line starts
/// with the first character that is not.
pub open spec fn headline(s: Seq<char>) -> Seq<char> {
    trim_end(before_newline(trim_start(s)))
}

/// The lexicographic order of texts, by code point.
pub open spec fn text_le(a: Seq<char>, b: Seq<char>) -> bool
    decreases a.len(),
{
    ||| a.len() == 0
    ||| b.len() > 0 && (a[0] as int) < (b[0] as int)
    ||| b.len() > 0 && a[0] == b[0] && text_le(a.drop_first(), b.drop_first())
}

/// The code point of a character.
fn code_point(c: char) -> (n: u32)
    ensures
        n as int == c as int,
{
    c as u32
}

/// Tests whether a character is blank.
pub fn blank(c: char) -> (r: bool)
    ensures
        r == is_blank(c),
{
    let n: u32 = code_point(c);
    (0x9 <= n && n <= 0xD) || n == 0x20 || n == 0x85 || n == 0xA0 || n == 0x1680 || (0x2000 <= n
        && n <= 0x200A) || n == 0x2028 || n == 0x2029 || n == 0x202F || n == 0x205F || n == 0x3000
}

/// The characters of a text, as a vector.
pub fn characters(s: &str) -> (v: Vec<char>)
    ensures
        v@ == s@,
{
    let mut v: Vec<char> = Vec::new();
    for c in it: s.chars()
        invariant
            it.seq() == s@,
            v@ == s@.take(it.index()),
    {
        v.push(c);
    }
    v
}

/// The first line of a text that is not blank, trimmed.
pub fn headline_of(s: &str) -> (r: String)
    ensures
        r@ == headline(s@),
{
    let v = characters(s);
    let ghost t = s@;
    let n: usize = v.len();
    let mut start: usize = 0;
    proof {
        assert(t.skip(0) == t);
    }
    while start < n && blank(v[start])
        invariant
            v@ == t,
            n == t.len(),
            start <= n,
            trim_start(t) == trim_start(t.skip(start as int)),
        decreases n - start,
    {
        proof {
            assert(t.skip(start as int).drop_first() == t.skip(start + 1));
        }
        start = start + 1;
    }
    let mut stop: usize = start;
    proof {
        assert(t.subrange(start as int, stop as int) + before_newline(t.skip(stop as int))
            == before_newline(t.skip(start as int)));
    }
    while stop < n && v[stop] != '\n'
        invariant
            v@ == t,
            n == t.len(),
            start <= stop <= n,
            before_newline(t.skip(start as int)) == t.subrange(start as int, stop as int)
                + before_newline(t.skip(stop as int)),
        decreases n - stop,
    {
        proof {
            assert(t.skip(stop as int).drop_first() == t.skip(stop + 1));
            assert(t.subrange(start as int, stop as int) + (seq![t[stop as int]] + before_newline(
                t.skip(stop + 1),
            )) == t.subrange(start as int, stop + 1) + before_newline(t.skip(stop + 1)));
        }
        stop = stop + 1;
    }
    let ghost line = t.subrange(start as int, stop as int);
    proof {
        assert(line + Seq::<char>::empty() == line);
    }
    let mut end: usize = stop;
    while end > start && blank(v[end - 1])
        invariant
            v@ == t,
            n == t.len(),
            start <= end <= stop <= n,
            line == t.subrange(start as int, stop as int),
            trim_end(line) == trim_end(t.subrange(start as int, end as int)),
        decreases end,
    {
        proof {
            assert(t.subrange(start as int, end as int).drop_last() == t.subrange(
                start as int,
                end - 1,
            ));
        }
        end = end - 1;
    }
    s.substring_char(start, end).to_owned()
}

/// Tests whether one text comes no later than another.
pub fn text_not_after(a: &str, b: &str) -> (r: bool)
    ensures
        r == text_le(a@, b@),
{
    let x = characters(a);
    let y = characters(b);
    let mut i: usize = 0;
    proof {
        assert(x@.skip(0) == a@);
        assert(y@.skip(0) == b@);
    }
    while i < x.len() && i < y.len() && x[i] == y[i]
        invariant
            x@ == a@,
            y@ == b@,
            i <= x.len(),
            i <= y.len(),
            text_le(a@, b@) == text_le(x@.skip(i as int), y@.skip(i as int)),
        decreases x.len() - i,
    {
        proof {
            assert(x@.skip(i as int).drop_first() == x@.skip(i + 1));
            assert(y@.skip(i as int).drop_first() == y@.skip(i + 1));
        }
        i = i + 1;
    }
    if i == x.len() {
        true
    } else if i == y.len() {
        false
    } else {
        code_point(x[i]) < code_point(y[i])
    }
}

proof fn lemma_trim_start(s: Seq<char>)
    ensures
        all_blank(s) <==> trim_start(s).len() == 0,
        trim_start(s).len() > 0 ==> !is_blank(trim_start(s)[0]),
    decreases s.len(),
{
    if s.len() > 0 && is_blank(s[0]) {
        lemma_trim_start(s.drop_first());
        if all_blank(s.drop_first()) {
            assert forall|i: int| 0 <= i < s.len() implies is_blank(#[trigger] s[i]) by {
                if i > 0 {
                    assert(s[i] == s.drop_first()[i - 1]);
                }
            }
        }
        if all_blank(s) {
            assert forall|i: int| 0 <= i < s.len() - 1 implies is_blank(
                #[trigger] s.drop_first()[i],
            ) by {
                assert(s.drop_first()[i] == s[i + 1]);
            }
        }
    } else if s.len() > 0 {
        assert(!is_blank(s[0]));
    }
}

proof fn lemma_before_newline(s: Seq<char>)
    ensures
        !before_newline(s).contains('\n'),
        s.len() > 0 && s[0] != '\n' ==> before_newline(s).len() > 0 && before_newline(s)[0] == s[0],
    decreases s.len(),
{
    if s.len() > 0 && s[0] != '\n' {
        let rest = before_newline(s.drop_first());
        lemma_before_newline(s.drop_first());
        if before_newline(s).contains('\n') {
            let i = choose|i: int|
                0 <= i < before_newline(s).len() && before_newline(s)[i] == '\n';
            assert(i > 0);
            assert(rest[i - 1] == '\n');
        }
    }
}

proof fn lemma_trim_end(s: Seq<char>)
    ensures
        trim_end(s).len() <= s.len(),
        trim_end(s) == s.take(trim_end(s).len() as int),
        trim_end(s).len() > 0 ==> !is_blank(trim_end(s).last()),
        s.len() > 0 && !is_blank(s[0]) ==> trim_end(s).len() > 0,
    decreases s.len(),
{
    if s.len() > 0 && is_blank(s.last()) {
        lemma_trim_end(s.drop_last());
        assert(s.drop_last().take(trim_end(s).len() as int) == s.take(trim_end(s).len() as int));
    } else {
        assert(s.take(s.len() as int) == s);
    }
}

/// The headline of a text fits a one-line message bar: it holds no line feed
/// and no blank at either end. It is empty exactly where the text is blank.
pub proof fn headline_is_one_trimmed_line(s: Seq<char>)
    ensures
        !headline(s).contains('\n'),
        headline(s).len() == 0 <==> all_blank(s),
        headline(s).len() > 0 ==> !is_blank(headline(s)[0]) && !is_blank(headline(s).last()),
{
    let t = trim_start(s);
    let line = before_newline(t);
    lemma_trim_start(s);
    lemma_before_newline(t);
    lemma_trim_end(line);
    if headline(s).contains('\n') {
        let i = choose|i: int| 0 <= i < headline(s).len() && headline(s)[i] == '\n';
        assert(line[i] == '\n');
    }
    if t.len() == 0 {
        assert(line.len() == 0);
    } else {
        assert(t[0] != '\n');
    }
}

/// The order of names is total: it holds of every text and itself, of two
/// texts in both directions only where they are equal, is transitive, and
/// holds between any two texts in one direction at least.
pub proof fn text_order_is_total(a: Seq<char>, b: Seq<char>, c: Seq<char>)
    ensures
        text_le(a, a),
        text_le(a, b) && text_le(b, a) ==> a == b,
        text_le(a, b) && text_le(b, c) ==> text_le(a, c),
        text_le(a, b) || text_le(b, a),
    decreases a.len() + b.len() + c.len(),
{
    if a.len() > 0 {
        if b.len() > 0 && c.len() > 0 {
            text_order_is_total(a.drop_first(), b.drop_first(), c.drop_first());
        } else if b.len() > 0 {
            text_order_is_total(a.drop_first(), b.drop_first(), c);
        } else {
            text_order_is_total(a.drop_first(), b, c);
        }
        if b.len() == 0 {
            assert(text_le(b, a));
        } else if a[0] == b[0] {
            assert(text_le(a, b) == text_le(a.drop_first(), b.drop_first()));
            assert(text_le(b, a) == text_le(b.drop_first(), a.drop_first()));
        } else {
            assert(a[0] as int != b[0] as int);
        }
        if b.len() > 0 && text_le(a, b) && text_le(b, a) {
            assert(a == seq![a[0]] + a.drop_first());
            assert(b == seq![b[0]] + b.drop_first());
        }
    } else if text_le(b, a) {
        assert(a == b);
    }
}

/// The order of names is decided at the first character in which they differ:
/// after whatever they have in common, the lesser code point goes first,
/// whatever follows it.
pub proof fn first_difference_decides(
    common: Seq<char>,
    c: char,
    d: char,
    s: Seq<char>,
    t: Seq<char>,
)
    requires
        (c as int) < (d as int),
    ensures
        text_le(common + seq![c] + s, common + seq![d] + t),
        !text_le(common + seq![d] + t, common + seq![c] + s),
    decreases common.len(),
{
    let a = common + seq![c] + s;
    let b = common + seq![d] + t;
    if common.len() > 0 {
        first_difference_decides(common.drop_first(), c, d, s, t);
        assert(a.drop_first() =~= common.drop_first() + seq![c] + s);
        assert(b.drop_first() =~= common.drop_first() + seq![d] + t);
        assert(a[0] == common[0] && b[0] == common[0]);
    } else {
        assert(a[0] == c && b[0] == d);
    }
}

/// A name goes before every longer name that begins with it.
pub proof fn beginnings_go_first(name: Seq<char>, rest: Seq<char>)
    requires
        rest.len() > 0,
    ensures
        text_le(name, name + rest),
        !text_le(name + rest, name),
    decreases name.len(),
{
    if name.len() > 0 {
        beginnings_go_first(name.drop_first(), rest);
        assert((name + rest).drop_first() =~= name.drop_first() + rest);
        assert((name + rest)[0] == name[0]);
    }
}

/// Blanks are the white space of Unicode: in ASCII the tab, the line feed, the
/// vertical tab, the form feed, the carriage return and the space.
pub proof fn blanks_are_white_space(c: char)
    ensures
        (c as int) < 0x80 ==> (is_blank(c) <==> c == '\t' || c == '\n' || c as int == 0xB || c as int
            == 0xC || c == '\r' || c == ' '),
        (c as int) >= 0x80 ==> (is_blank(c) <==> c as int == 0x85 || c as int == 0xA0 || c as int
            == 0x1680 || 0x2000 <= (c as int) <= 0x200A || c as int == 0x2028 || c as int == 0x2029
            || c as int == 0x202F || c as int == 0x205F || c as int == 0x3000),
{
}

proof fn lemma_trim_start_of(before: Seq<char>, rest: Seq<char>)
    requires
        forall|i: int| 0 <= i < before.len() ==> is_blank(#[trigger] before[i]),
        rest.len() == 0 || !is_blank(rest[0]),
    ensures
        trim_start(before + rest) == rest,
    decreases before.len(),
{
    let s = before + rest;
    if before.len() > 0 {
        assert(s[0] == before[0]);
        assert forall|i: int| 0 <= i < before.len() - 1 implies is_blank(
            #[trigger] before.drop_first()[i],
        ) by {
            assert(before.drop_first()[i] == before[i + 1]);
        }
        lemma_trim_start_of(before.drop_first(), rest);
        assert(s.drop_first() =~= before.drop_first() + rest);
    } else {
        assert(s =~= rest);
    }
}

proof fn lemma_before_newline_of(line: Seq<char>, rest: Seq<char>)
    requires
        forall|i: int| 0 <= i < line.len() ==> #[trigger] line[i] != '\n',
        rest.len() == 0 || rest[0] == '\n',
    ensures
        before_newline(line + rest) == line,
    decreases line.len(),
{
    let s = line + rest;
    if line.len() > 0 {
        assert(s[0] == line[0]);
        assert forall|i: int| 0 <= i < line.len() - 1 implies #[trigger] line.drop_first()[i]
            != '\n' by {
            assert(line.drop_first()[i] == line[i + 1]);
        }
        lemma_before_newline_of(line.drop_first(), rest);
        assert(s.drop_first() =~= line.drop_first() + rest);
        assert(seq![line[0]] + line.drop_first() =~= line);
    } else {
        assert(s =~= rest);
    }
}

proof fn lemma_trim_end_of(line: Seq<char>, gap: Seq<char>)
    requires
        forall|i: int| 0 <= i < gap.len() ==> is_blank(#[trigger] gap[i]),
        line.len() == 0 || !is_blank(line.last()),
    ensures
        trim_end(line + gap) == line,
    decreases gap.len(),
{
    let s = line + gap;
    if gap.len() > 0 {
        assert(s.last() == gap.last());
        assert(gap.last() == gap[gap.len() - 1]);
        assert forall|i: int| 0 <= i < gap.len() - 1 implies is_blank(
            #[trigger] gap.drop_last()[i],
        ) by {
            assert(gap.drop_last()[i] == gap[i]);
        }
        lemma_trim_end_of(line, gap.drop_last());
        assert(s.drop_last() =~= line + gap.drop_last());
    } else {
        assert(s =~= line);
    }
}

/// The headline is the first line that is not blank: of blanks, a line that
/// neither begins nor ends with one, blanks up to the end of that line, and
/// whatever follows, it is that line, whole. A blank text has none.
pub proof fn headline_is_the_first_line(
    before: Seq<char>,
    line: Seq<char>,
    gap: Seq<char>,
    rest: Seq<char>,
)
    requires
        forall|i: int| 0 <= i < before.len() ==> is_blank(#[trigger] before[i]),
        forall|i: int| 0 <= i < line.len() ==> #[trigger] line[i] != '\n',
        forall|i: int| 0 <= i < gap.len() ==> is_blank(#[trigger] gap[i]) && gap[i] != '\n',
        line.len() > 0,
        !is_blank(line[0]),
        !is_blank(line.last()),
        rest.len() == 0 || rest[0] == '\n',
    ensures
        headline(before + line + gap + rest) == line,
        headline(before).len() == 0,
{
    let s = before + line + gap + rest;
    let t = line + gap + rest;
    assert(s =~= before + t);
    lemma_trim_start_of(before, t);
    assert forall|i: int| 0 <= i < (line + gap).len() implies #[trigger] (line + gap)[i] != '\n' by {
        if i < line.len() {
            assert(line[i] != '\n');
        } else {
            assert(gap[i - line.len()] != '\n');
        }
    }
    lemma_before_newline_of(line + gap, rest);
    lemma_trim_end_of(line, gap);
    headline_is_one_trimmed_line(before);
}

} // verus!
