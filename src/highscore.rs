use vstd::prelude::*;
use vstd::string::StrSliceExecFns;

verus! {

/// The best score seen across sessions, and whether it was raised since the
/// flag was last cleared. Reading and writing the persisted record is left to
/// the caller: it builds the store from the loaded value and saves whenever
/// `check_and_update` reports a record.
pub struct HighScore {
    pub score: usize,
    pub is_new_record: bool,
}

impl HighScore {
    /// A fresh store, as when no record has been saved yet.
    pub fn new() -> (r: HighScore)
        ensures
            r.score == 0,
            !r.is_new_record,
    {
        HighScore { score: 0, is_new_record: false }
    }

    /// A store holding a previously saved record.
    pub fn with_score(score: usize) -> (r: HighScore)
        ensures
            r.score == score,
            !r.is_new_record,
    {
        HighScore { score, is_new_record: false }
    }

    /// Raises the record to `current_score` when it is higher, and says
    /// whether it did.
    pub fn check_and_update(&mut self, current_score: usize) -> (r: bool)
        ensures
            r == (current_score > old(self).score),
            r ==> final(self).score == current_score && final(self).is_new_record,
            !r ==> *final(self) == *old(self),
            final(self).score >= old(self).score,
    {
        if current_score > self.score {
            self.score = current_score;
            self.is_new_record = true;
            true
        } else {
            false
        }
    }

    pub fn reset_new_record_flag(&mut self)
        ensures
            final(self).score == old(self).score,
            !final(self).is_new_record,
    {
        self.is_new_record = false;
    }
}

/// Whitespace that surrounds a saved record: the characters of Unicode's
/// White_Space property.
pub open spec fn is_space(c: char) -> bool {
    ('\u{9}' <= c && c <= '\u{d}') || c == ' ' || c == '\u{85}' || c == '\u{a0}' || c == '\u{1680}'
        || ('\u{2000}' <= c && c <= '\u{200a}') || c == '\u{2028}' || c == '\u{2029}' || c
        == '\u{202f}' || c == '\u{205f}' || c == '\u{3000}'
}

pub open spec fn is_digit(c: char) -> bool {
    '0' <= c && c <= '9'
}

/// `t` without its leading whitespace.
pub open spec fn strip_front(t: Seq<char>) -> Seq<char>
    decreases t.len(),
{
    if t.len() > 0 && is_space(t[0]) {
        strip_front(t.drop_first())
    } else {
        t
    }
}

/// `t` without its trailing whitespace.
pub open spec fn strip_back(t: Seq<char>) -> Seq<char>
    decreases t.len(),
{
    if t.len() > 0 && is_space(t.last()) {
        strip_back(t.drop_last())
    } else {
        t
    }
}

/// The number that a run of decimal digits spells.
pub open spec fn digits_value(d: Seq<char>) -> nat
    decreases d.len(),
{
    if d.len() == 0 {
        0
    } else {
        digits_value(d.drop_last()) * 10 + (d.last() as nat - '0' as nat) as nat
    }
}

/// What should be the digits of a saved record: the text without surrounding
/// whitespace and without one leading `+`.
pub open spec fn record_digits(text: Seq<char>) -> Seq<char> {
    let t = strip_back(strip_front(text));
    if t.len() > 0 && t[0] == '+' {
        t.drop_first()
    } else {
        t
    }
}

/// The record that a saved text holds: once surrounding whitespace is
/// dropped, an optional `+` and then one or more decimal digits whose value
/// fits in `usize`. Any other text holds no record, read as 0.
pub open spec fn saved_score(text: Seq<char>) -> nat {
    let d = record_digits(text);
    if d.len() > 0 && (forall|k: int| 0 <= k < d.len() ==> is_digit(#[trigger] d[k])) && digits_value(d)
        <= usize::MAX {
        digits_value(d)
    } else {
        0
    }
}

/// A longer run of digits never spells less than its prefix.
proof fn lemma_digits_value_prefix(d: Seq<char>, k: int)
    requires
        0 <= k <= d.len(),
        forall|i: int| 0 <= i < d.len() ==> is_digit(#[trigger] d[i]),
    ensures
        digits_value(d) >= digits_value(d.take(k)),
    decreases d.len(),
{
    if k < d.len() {
        assert(d.drop_last().take(k) =~= d.take(k));
        lemma_digits_value_prefix(d.drop_last(), k);
    } else {
        assert(d.take(k) =~= d);
    }
}

/// Reads the record out of a saved text, as `saved_score` describes.
pub fn parse_high_score(text: &str) -> (r: usize)
    ensures
        r == saved_score(text@),
{
    let n = text.unicode_len();
    let ghost bs = text@;
    let mut i: usize = 0;
    assert(bs.subrange(0, n as int) =~= bs);
    while i < n && is_space_char(text.get_char(i))
        invariant
            i <= n,
            n == bs.len(),
            text@ == bs,
            strip_front(bs) == strip_front(bs.subrange(i as int, n as int)),
        decreases n - i,
    {
        assert(bs.subrange(i as int, n as int).drop_first() =~= bs.subrange(i + 1, n as int));
        i = i + 1;
    }
    let ghost front = bs.subrange(i as int, n as int);
    assert(strip_front(bs) == front);
    let mut j: usize = n;
    while j > i && is_space_char(text.get_char(j - 1))
        invariant
            i <= j <= n,
            n == bs.len(),
            text@ == bs,
            front == bs.subrange(i as int, n as int),
            strip_back(front) == strip_back(bs.subrange(i as int, j as int)),
        decreases j,
    {
        assert(bs.subrange(i as int, j as int).drop_last() =~= bs.subrange(i as int, j - 1));
        j = j - 1;
    }
    let ghost t = bs.subrange(i as int, j as int);
    assert(strip_back(strip_front(bs)) == t);
    let mut start: usize = i;
    if i < j && text.get_char(i) == '+' {
        start = i + 1;
        assert(t.drop_first() =~= bs.subrange(start as int, j as int));
    } else {
        assert(t =~= bs.subrange(start as int, j as int));
    }
    let ghost d = bs.subrange(start as int, j as int);
    assert(record_digits(bs) == d);
    if start == j {
        return 0;
    }
    let mut acc: usize = 0;
    let mut k: usize = start;
    while k < j
        invariant
            start <= k <= j,
            j <= n,
            n == bs.len(),
            text@ == bs,
            d == bs.subrange(start as int, j as int),
            record_digits(bs) == d,
            acc == digits_value(d.take(k - start)),
            forall|m: int| 0 <= m < k - start ==> is_digit(#[trigger] d[m]),
        decreases j - k,
    {
        let c = text.get_char(k);
        if c < '0' || c > '9' {
            assert(!is_digit(d[k - start]));
            return 0;
        }
        assert(d.take(k + 1 - start).drop_last() =~= d.take(k - start));
        assert(d.take(k + 1 - start).last() == c);
        let digit = (c as u32 - '0' as u32) as usize;
        let next = match acc.checked_mul(10) {
            Some(m) => m.checked_add(digit),
            None => None,
        };
        match next {
            Some(v) => {
                acc = v;
            },
            None => {
                proof {
                    if forall|m: int| 0 <= m < d.len() ==> is_digit(#[trigger] d[m]) {
                        lemma_digits_value_prefix(d, k + 1 - start);
                    }
                }
                return 0;
            },
        }
        k = k + 1;
    }
    assert(d.take(j - start) =~= d);
    acc
}

fn is_space_char(c: char) -> (r: bool)
    ensures
        r == is_space(c),
{
    ('\u{9}' <= c && c <= '\u{d}') || c == ' ' || c == '\u{85}' || c == '\u{a0}' || c == '\u{1680}'
        || ('\u{2000}' <= c && c <= '\u{200a}') || c == '\u{2028}' || c == '\u{2029}' || c
        == '\u{202f}' || c == '\u{205f}' || c == '\u{3000}'
}

} // verus!
