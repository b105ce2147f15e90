use vstd::prelude::*;
use vstd::string::*;

verus! {

/// A window offered for sharing, as listed by the desktop portal.
#[derive(Clone, Debug)]
pub struct Toplevel {
    /// Id of the compositor's toplevel handle.
    pub id: u64,
    /// Class of the window the toplevel belongs to.
    pub class: String,
    /// Title of the window the toplevel belongs to.
    pub title: String,
    /// Address of the window, when the list carries one.
    pub window_address: Option<u64>,
}

/// The mathematical content of a `Toplevel`.
pub struct ToplevelRecord {
    pub id: u64,
    pub class: Seq<char>,
    pub title: Seq<char>,
    pub window_address: Option<u64>,
}

impl View for Toplevel {
    type V = ToplevelRecord;

    open spec fn view(&self) -> ToplevelRecord {
        ToplevelRecord { id: self.id, class: self.class@, title: self.title@, window_address: self.window_address }
    }
}

/// A field separator of the list: `[HC>]` ends the id, `[HT>]` the class, `[HE>]` the
/// title and `[HA>]` the window address.
pub open spec fn marker(tag: char) -> Seq<char> {
    seq!['[', 'H', tag, '>', ']']
}

pub open spec fn occurs_at(s: Seq<char>, pat: Seq<char>, i: int) -> bool {
    0 <= i && i + pat.len() <= s.len() && s.subrange(i, i + pat.len()) == pat
}

/// The first position at or after `from` where `pat` occurs in `s`.
pub open spec fn first_occurrence(s: Seq<char>, pat: Seq<char>, from: int) -> Option<int>
    decreases s.len() - from,
{
    if from < 0 || from >= s.len() || from + pat.len() > s.len() {
        None
    } else if occurs_at(s, pat, from) {
        Some(from)
    } else {
        first_occurrence(s, pat, from + 1)
    }
}

pub open spec fn is_digit(c: char) -> bool {
    '0' as u32 <= c as u32 <= '9' as u32
}

pub open spec fn all_digits(s: Seq<char>) -> bool {
    forall|i: int| 0 <= i < s.len() ==> is_digit(#[trigger] s[i])
}

/// The number that a run of decimal digits denotes.
pub open spec fn digits_value(s: Seq<char>) -> int
    decreases s.len(),
{
    if s.len() == 0 {
        0
    } else {
        digits_value(s.drop_last()) * 10 + (s.last() as u32 - '0' as u32)
    }
}

/// An unsigned 64-bit integer in decimal: an optional `+`, then at least one digit, and a
/// value that fits.
pub open spec fn parse_u64(s: Seq<char>) -> Option<u64> {
    let d = if s.len() > 0 && s[0] == '+' {
        s.subrange(1, s.len() as int)
    } else {
        s
    };
    if d.len() > 0 && all_digits(d) && digits_value(d) <= u64::MAX {
        Some(digits_value(d) as u64)
    } else {
        None
    }
}

/// The record that starts at `pos`, and where the next one starts: `<id>[HC>]<class>[HT>]<title>[HE>]`,
/// then `<address>[HA>]` when the text up to the next `[HA>]` is a number.
pub open spec fn parse_at(s: Seq<char>, pos: int) -> Option<(ToplevelRecord, int)> {
    match first_occurrence(s, marker('C'), pos) {
        None => None,
        Some(a) => match parse_u64(s.subrange(pos, a)) {
            None => None,
            Some(id) => match first_occurrence(s, marker('T'), a + 5) {
                None => None,
                Some(b) => match first_occurrence(s, marker('E'), b + 5) {
                    None => None,
                    Some(c) => {
                        let class = s.subrange(a + 5, b);
                        let title = s.subrange(b + 5, c);
                        let without = ToplevelRecord { id, class, title, window_address: None };
                        match first_occurrence(s, marker('A'), c + 5) {
                            Some(d) => match parse_u64(s.subrange(c + 5, d)) {
                                Some(address) => Some((ToplevelRecord { window_address: Some(address), ..without }, d + 5)),
                                None => Some((without, c + 5)),
                            },
                            None => Some((without, c + 5)),
                        }
                    },
                },
            },
        },
    }
}

/// The records from `pos` on, up to the first one that is malformed or incomplete.
pub open spec fn parse_from(s: Seq<char>, pos: int) -> Seq<ToplevelRecord>
    decreases s.len() - pos,
{
    if pos < 0 || pos >= s.len() {
        Seq::empty()
    } else {
        match parse_at(s, pos) {
            None => Seq::empty(),
            Some((record, next)) => if next <= pos || next > s.len() {
                Seq::empty()
            } else {
                seq![record] + parse_from(s, next)
            },
        }
    }
}

/// The records that a list of toplevels holds.
pub open spec fn records(toplevels: Seq<Toplevel>) -> Seq<ToplevelRecord> {
    toplevels.map_values(|t: Toplevel| t@)
}

/// The characters of `s`, one per element.
pub fn chars_of(s: &str) -> (r: Vec<char>)
    ensures
        r@ == s@,
{
    let mut out: Vec<char> = Vec::new();
    for c in it: s.chars()
        invariant
            out@ == it.seq().subrange(0, it.index() as int),
    {
        out.push(c);
    }
    out
}

/// Whether the separator with `tag` starts at `i`.
fn marker_at(chars: &Vec<char>, tag: char, i: usize) -> (r: bool)
    requires
        i + 5 <= chars.len(),
    ensures
        r == occurs_at(chars@, marker(tag), i as int),
{
    let r = chars[i] == '[' && chars[i + 1] == 'H' && chars[i + 2] == tag && chars[i + 3] == '>' && chars[i + 4] == ']';
    if r {
        assert(chars@.subrange(i as int, i + 5) =~= marker(tag));
    } else {
        assert(chars@.subrange(i as int, i + 5) != marker(tag)) by {
            if chars@.subrange(i as int, i + 5) == marker(tag) {
                assert(chars@.subrange(i as int, i + 5)[0] == '[');
                assert(chars@.subrange(i as int, i + 5)[1] == 'H');
                assert(chars@.subrange(i as int, i + 5)[2] == tag);
                assert(chars@.subrange(i as int, i + 5)[3] == '>');
                assert(chars@.subrange(i as int, i + 5)[4] == ']');
            }
        }
    }
    r
}

/// The first position at or after `from` where the separator with `tag` starts.
fn find_marker(chars: &Vec<char>, tag: char, from: usize) -> (r: Option<usize>)
    ensures
        match r {
            Some(i) => {
                &&& first_occurrence(chars@, marker(tag), from as int) == Some(i as int)
                &&& from <= i
                &&& i + 5 <= chars.len()
            },
            None => first_occurrence(chars@, marker(tag), from as int) is None,
        },
{
    assert(marker(tag).len() == 5);
    let n = chars.len();
    let mut i = from;
    while i <= n && n - i >= 5
        invariant
            n == chars@.len(),
            from <= i,
            first_occurrence(chars@, marker(tag), from as int) == first_occurrence(chars@, marker(tag), i as int),
        decreases n - i,
    {
        if marker_at(chars, tag, i) {
            return Some(i);
        }
        i = i + 1;
    }
    None
}

/// Digits never denote a negative number, and a prefix of digits never denotes more than
/// the whole run.
proof fn lemma_digits_prefix(s: Seq<char>, k: int)
    requires
        all_digits(s),
        0 <= k <= s.len(),
    ensures
        0 <= digits_value(s.subrange(0, k)) <= digits_value(s),
    decreases s.len(),
{
    if s.len() == 0 {
        assert(s.subrange(0, k) =~= s);
    } else {
        let shorter = s.drop_last();
        assert(all_digits(shorter)) by {
            assert forall|i: int| 0 <= i < shorter.len() implies is_digit(#[trigger] shorter[i]) by {
                assert(shorter[i] == s[i]);
            }
        }
        assert(is_digit(s[s.len() - 1]));
        lemma_digits_prefix(shorter, shorter.len() as int);
        assert(shorter.subrange(0, shorter.len() as int) =~= shorter);
        if k == s.len() {
            assert(s.subrange(0, k) =~= s);
        } else {
            lemma_digits_prefix(shorter, k);
            assert(shorter.subrange(0, k) =~= s.subrange(0, k));
        }
    }
}

/// The number written in `chars[from..to]`, as `str::parse::<u64>` reads it.
fn parse_u64_at(chars: &Vec<char>, from: usize, to: usize) -> (r: Option<u64>)
    requires
        from <= to <= chars.len(),
    ensures
        r == parse_u64(chars@.subrange(from as int, to as int)),
{
    let ghost s = chars@.subrange(from as int, to as int);
    let mut start = from;
    if from < to && chars[from] == '+' {
        start = from + 1;
    }
    let ghost d = chars@.subrange(start as int, to as int);
    assert(d =~= (if s.len() > 0 && s[0] == '+' {
        s.subrange(1, s.len() as int)
    } else {
        s
    }));
    if start >= to {
        return None;
    }
    let mut acc: u64 = 0;
    let mut i = start;
    while i < to
        invariant
            start <= i <= to <= chars.len(),
            d == chars@.subrange(start as int, to as int),
            s == chars@.subrange(from as int, to as int),
            start < to,
            d == (if s.len() > 0 && s[0] == '+' {
                s.subrange(1, s.len() as int)
            } else {
                s
            }),
            all_digits(chars@.subrange(start as int, i as int)),
            acc == digits_value(chars@.subrange(start as int, i as int)),
        decreases to - i,
    {
        let c = chars[i];
        if !((c as u32) >= ('0' as u32) && (c as u32) <= ('9' as u32)) {
            assert(d[i - start] == c);
            assert(!is_digit(d[i - start]));
            return None;
        }
        let digit = (c as u32 - '0' as u32) as u64;
        assert(chars@.subrange(start as int, i + 1).drop_last() =~= chars@.subrange(start as int, i as int));
        assert(chars@.subrange(start as int, i + 1).last() == c);
        assert(digits_value(chars@.subrange(start as int, i + 1)) == acc * 10 + digit);
        if acc > 1844674407370955161 || (acc == 1844674407370955161 && digit > 5) {
            proof {
                assert(all_digits(chars@.subrange(start as int, i + 1))) by {
                    assert forall|j: int| 0 <= j < i + 1 - start implies is_digit(#[trigger] chars@.subrange(start as int, i + 1)[j]) by {
                        if j < i - start {
                            assert(chars@.subrange(start as int, i + 1)[j] == chars@.subrange(start as int, i as int)[j]);
                        }
                    }
                }
                assert(acc * 10 + digit > u64::MAX);
                if all_digits(d) {
                    lemma_digits_prefix(d, i + 1 - start);
                    assert(d.subrange(0, i + 1 - start) =~= chars@.subrange(start as int, i + 1));
                }
            }
            return None;
        }
        proof {
            assert(all_digits(chars@.subrange(start as int, i + 1))) by {
                assert forall|j: int| 0 <= j < i + 1 - start implies is_digit(#[trigger] chars@.subrange(start as int, i + 1)[j]) by {
                    if j < i - start {
                        assert(chars@.subrange(start as int, i + 1)[j] == chars@.subrange(start as int, i as int)[j]);
                    }
                }
            }
            assert(acc * 10 + digit <= u64::MAX);
        }
        acc = acc * 10 + digit;
        i = i + 1;
    }
    assert(chars@.subrange(start as int, i as int) == d);
    Some(acc)
}

impl Toplevel {
    /// Parse a window sharing list: records `<id>[HC>]<class>[HT>]<title>[HE>]`, each
    /// optionally followed by `<address>[HA>]`. Parsing stops at the first malformed or
    /// incomplete record; the records before it are returned.
    pub fn parse_list(toplevel_list: &str) -> (r: Vec<Toplevel>)
        ensures
            records(r@) == parse_from(toplevel_list@, 0),
    {
        let chars = chars_of(toplevel_list);
        let n = chars.len();
        let ghost s = toplevel_list@;
        let mut toplevels: Vec<Toplevel> = Vec::new();
        let mut pos: usize = 0;
        loop
            invariant
                s == toplevel_list@,
                chars@ == s,
                n == s.len(),
                pos <= n,
                records(toplevels@) + parse_from(s, pos as int) == parse_from(s, 0),
            decreases n - pos,
        {
            if pos >= n {
                assert(records(toplevels@) + parse_from(s, pos as int) =~= records(toplevels@));
                return toplevels;
            }
            let ghost done = records(toplevels@);
            let id_sep = match find_marker(&chars, 'C', pos) {
                Some(i) => i,
                None => {
                    assert(parse_from(s, pos as int) =~= Seq::<ToplevelRecord>::empty());
                    assert(done + parse_from(s, pos as int) =~= done);
                    return toplevels;
                },
            };
            let id = match parse_u64_at(&chars, pos, id_sep) {
                Some(v) => v,
                None => {
                    assert(parse_from(s, pos as int) =~= Seq::<ToplevelRecord>::empty());
                    assert(done + parse_from(s, pos as int) =~= done);
                    return toplevels;
                },
            };
            let class_sep = match find_marker(&chars, 'T', id_sep + 5) {
                Some(i) => i,
                None => {
                    assert(parse_from(s, pos as int) =~= Seq::<ToplevelRecord>::empty());
                    assert(done + parse_from(s, pos as int) =~= done);
                    return toplevels;
                },
            };
            let title_sep = match find_marker(&chars, 'E', class_sep + 5) {
                Some(i) => i,
                None => {
                    assert(parse_from(s, pos as int) =~= Seq::<ToplevelRecord>::empty());
                    assert(done + parse_from(s, pos as int) =~= done);
                    return toplevels;
                },
            };
            assert(pos <= id_sep && id_sep + 5 <= class_sep && class_sep + 5 <= title_sep && title_sep + 5 <= n);
            assert(title_sep <= toplevel_list@.len());
            let class = toplevel_list.substring_char(id_sep + 5, class_sep).to_owned();
            let title = toplevel_list.substring_char(class_sep + 5, title_sep).to_owned();
            let mut next = title_sep + 5;
            let mut window_address: Option<u64> = None;
            match find_marker(&chars, 'A', title_sep + 5) {
                Some(address_sep) => match parse_u64_at(&chars, title_sep + 5, address_sep) {
                    Some(address) => {
                        window_address = Some(address);
                        next = address_sep + 5;
                    },
                    None => {},
                },
                None => {},
            }
            let toplevel = Toplevel { id, class, title, window_address };
            assert(parse_at(s, pos as int) == Some((toplevel@, next as int)));
            toplevels.push(toplevel);
            assert(records(toplevels@) =~= done.push(toplevel@));
            assert(parse_from(s, pos as int) == seq![toplevel@] + parse_from(s, next as int));
            assert(records(toplevels@) + parse_from(s, next as int) =~= done + parse_from(s, pos as int));
            pos = next;
        }
    }
}

} // verus!
