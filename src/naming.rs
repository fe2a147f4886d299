use vstd::prelude::*;
use vstd::std_specs::iter::IteratorSpec;

verus! {

/// Longest name, in characters, that `sanitize_filename` returns.
pub const MAX_NAME_LEN: usize = 255;

/// Whether std counts `c` as alphanumeric (Unicode Alphabetic or Numeric).
pub uninterp spec fn alnum(c: char) -> bool;

/// Whether std counts `c` as white space (Unicode White_Space).
pub uninterp spec fn whitespace(c: char) -> bool;

pub open spec fn ascii_alnum(c: char) -> bool {
    ('a' <= c && c <= 'z') || ('A' <= c && c <= 'Z') || ('0' <= c && c <= '9')
}

/// Relies on `char::is_alphanumeric`; on ASCII it holds of letters and digits alone.
#[verifier::external_body]
fn is_alnum(c: char) -> (r: bool)
    ensures
        r == alnum(c),
        (c as u32) < 128 ==> (r <==> ascii_alnum(c)),
{
    c.is_alphanumeric()
}

/// Relies on `char::is_whitespace`; on ASCII it holds of tab, line feed, vertical tab,
/// form feed, carriage return and space alone.
#[verifier::external_body]
fn is_space(c: char) -> (r: bool)
    ensures
        r == whitespace(c),
        (c as u32) < 128 ==> (r <==> (c == ' ' || ('\t' <= c && c <= '\r'))),
{
    c.is_whitespace()
}

/// Relies on `String::push`: appends one character.
#[verifier::external_body]
fn push_char(s: &mut String, c: char)
    ensures
        final(s)@ == old(s)@.push(c),
{
    s.push(c)
}

/// The characters of a string, in order.
pub fn chars_of(s: &str) -> (r: Vec<char>)
    ensures
        r@ == s@,
{
    let mut it = s.chars();
    let mut out: Vec<char> = Vec::new();
    loop
        invariant
            out@ + it.remaining() == s@,
            it.decrease() is Some,
        decreases it.decrease()->0,
    {
        let ghost before = it.remaining();
        match it.next() {
            Some(c) => {
                out.push(c);
                assert(out@ + it.remaining() =~= s@) by {
                    assert(before =~= seq![c] + it.remaining());
                }
            },
            None => {
                assert(out@ =~= s@);
                return out;
            },
        }
    }
}

/// A string made of the given characters.
pub fn string_of(cs: &Vec<char>) -> (r: String)
    ensures
        r@ == cs@,
{
    let mut s = String::new();
    let mut i: usize = 0;
    while i < cs.len()
        invariant
            i <= cs@.len(),
            s@ == cs@.take(i as int),
        decreases cs@.len() - i,
    {
        push_char(&mut s, cs[i]);
        i = i + 1;
        assert(s@ =~= cs@.take(i as int));
    }
    assert(cs@.take(i as int) =~= cs@);
    s
}

/// The character that stands for `c` in a file name.
pub open spec fn safe_char(c: char) -> char {
    if alnum(c) || c == '-' || c == '_' {
        c
    } else {
        '-'
    }
}

/// `s` without its leading dashes.
pub open spec fn trim_start_dashes(s: Seq<char>) -> Seq<char>
    decreases s.len(),
{
    if s.len() > 0 && s[0] == '-' {
        trim_start_dashes(s.drop_first())
    } else {
        s
    }
}

/// `s` without its trailing dashes.
pub open spec fn trim_end_dashes(s: Seq<char>) -> Seq<char>
    decreases s.len(),
{
    if s.len() > 0 && s.last() == '-' {
        trim_end_dashes(s.drop_last())
    } else {
        s
    }
}

/// The file-name-safe form of a text: every character that is not alphanumeric,
/// `-` or `_` becomes `-`, dashes at both ends go, and at most 255 characters stay.
pub open spec fn sanitized(s: Seq<char>) -> Seq<char> {
    let t = trim_end_dashes(trim_start_dashes(s.map_values(|c: char| safe_char(c))));
    if t.len() > MAX_NAME_LEN {
        t.take(MAX_NAME_LEN as int)
    } else {
        t
    }
}

proof fn lemma_trim_start(s: Seq<char>, i: int)
    requires
        0 <= i <= s.len(),
        forall|k: int| 0 <= k < i ==> s[k] == '-',
        i == s.len() || s[i] != '-',
    ensures
        trim_start_dashes(s) == s.skip(i),
    decreases i,
{
    if i > 0 {
        lemma_trim_start(s.drop_first(), i - 1);
        assert(s.drop_first().skip(i - 1) =~= s.skip(i));
    } else {
        assert(s.skip(0) =~= s);
    }
}

proof fn lemma_trim_end(s: Seq<char>, j: int)
    requires
        0 <= j <= s.len(),
        forall|k: int| j <= k < s.len() ==> s[k] == '-',
        j == 0 || s[j - 1] != '-',
    ensures
        trim_end_dashes(s) == s.take(j),
    decreases s.len() - j,
{
    if j < s.len() {
        lemma_trim_end(s.drop_last(), j);
        assert(s.drop_last().take(j) =~= s.take(j));
    } else {
        assert(s.take(j) =~= s);
    }
}

/// The file-name-safe form of `name` (see `sanitized`).
pub fn sanitize_filename(name: &str) -> (r: String)
    ensures
        r@ == sanitized(name@),
{
    let cs = chars_of(name);
    let mut mapped: Vec<char> = Vec::new();
    let mut i: usize = 0;
    while i < cs.len()
        invariant
            i <= cs@.len(),
            cs@ == name@,
            mapped@ == cs@.take(i as int).map_values(|c: char| safe_char(c)),
        decreases cs@.len() - i,
    {
        let c = cs[i];
        let keep = is_alnum(c) || c == '-' || c == '_';
        mapped.push(if keep { c } else { '-' });
        i = i + 1;
        assert(mapped@ =~= cs@.take(i as int).map_values(|c: char| safe_char(c)));
    }
    let ghost m = name@.map_values(|c: char| safe_char(c));
    assert(mapped@ =~= m) by {
        assert(cs@.take(i as int) =~= cs@);
    }
    let mut start: usize = 0;
    while start < mapped.len() && mapped[start] == '-'
        invariant
            start <= mapped@.len(),
            forall|k: int| 0 <= k < start ==> mapped@[k] == '-',
        decreases mapped@.len() - start,
    {
        start = start + 1;
    }
    proof {
        lemma_trim_start(m, start as int);
    }
    let mut end: usize = mapped.len();
    while end > start && mapped[end - 1] == '-'
        invariant
            start <= end <= mapped@.len(),
            forall|k: int| end <= k < mapped@.len() ==> mapped@[k] == '-',
        decreases end,
    {
        end = end - 1;
    }
    let ghost s1 = m.skip(start as int);
    proof {
        lemma_trim_end(s1, end - start);
        assert forall|k: int| end - start <= k < s1.len() implies s1[k] == '-' by {
            assert(s1[k] == m[k + start]);
        }
    }
    let stop: usize = if end - start > MAX_NAME_LEN { start + MAX_NAME_LEN } else { end };
    let mut out: Vec<char> = Vec::new();
    let mut k: usize = start;
    while k < stop
        invariant
            start <= k <= stop <= mapped@.len(),
            out@ == mapped@.subrange(start as int, k as int),
        decreases stop - k,
    {
        out.push(mapped[k]);
        k = k + 1;
        assert(out@ =~= mapped@.subrange(start as int, k as int));
    }
    assert(out@ =~= sanitized(name@)) by {
        let t = s1.take(end - start);
        assert(t =~= mapped@.subrange(start as int, end as int));
    }
    string_of(&out)
}

/// Whether a text holds white space alone (it is empty once trimmed).
pub open spec fn blank(s: Seq<char>) -> bool {
    forall|i: int| 0 <= i < s.len() ==> whitespace(#[trigger] s[i])
}

/// Whether `title` is empty once white space is trimmed from both ends.
pub fn is_blank(title: &str) -> (r: bool)
    ensures
        r == blank(title@),
{
    let cs = chars_of(title);
    let mut i: usize = 0;
    while i < cs.len()
        invariant
            i <= cs@.len(),
            cs@ == title@,
            forall|k: int| 0 <= k < i ==> whitespace(#[trigger] cs@[k]),
        decreases cs@.len() - i,
    {
        if !is_space(cs[i]) {
            return false;
        }
        i = i + 1;
    }
    true
}

/// The decimal digit that stands for `n`.
pub open spec fn digit(n: nat) -> char {
    if n == 0 { '0' }
    else if n == 1 { '1' }
    else if n == 2 { '2' }
    else if n == 3 { '3' }
    else if n == 4 { '4' }
    else if n == 5 { '5' }
    else if n == 6 { '6' }
    else if n == 7 { '7' }
    else if n == 8 { '8' }
    else { '9' }
}

/// `n` in two decimal digits, zero-padded.
pub open spec fn pad2(n: nat) -> Seq<char> {
    seq![digit(n / 10), digit(n % 10)]
}

/// `n` in four decimal digits, zero-padded.
pub open spec fn pad4(n: nat) -> Seq<char> {
    seq![digit(n / 1000), digit((n / 100) % 10), digit((n / 10) % 10), digit(n % 10)]
}

fn digit_char(n: u32) -> (r: char)
    requires
        n < 10,
    ensures
        r == digit(n as nat),
{
    if n == 0 { '0' }
    else if n == 1 { '1' }
    else if n == 2 { '2' }
    else if n == 3 { '3' }
    else if n == 4 { '4' }
    else if n == 5 { '5' }
    else if n == 6 { '6' }
    else if n == 7 { '7' }
    else if n == 8 { '8' }
    else { '9' }
}

fn push_pad2(out: &mut Vec<char>, n: u32)
    requires
        n < 100,
    ensures
        final(out)@ == old(out)@ + pad2(n as nat),
{
    out.push(digit_char(n / 10));
    out.push(digit_char(n % 10));
    assert(final(out)@ =~= old(out)@ + pad2(n as nat));
}

fn push_pad4(out: &mut Vec<char>, n: u32)
    requires
        n < 10000,
    ensures
        final(out)@ == old(out)@ + pad4(n as nat),
{
    out.push(digit_char(n / 1000));
    out.push(digit_char((n / 100) % 10));
    out.push(digit_char((n / 10) % 10));
    out.push(digit_char(n % 10));
    assert(final(out)@ =~= old(out)@ + pad4(n as nat));
}

/// A local wall-clock time, to the second.
#[derive(Debug, Clone, Copy, PartialEq, Eq)]
pub struct Timestamp {
    pub year: u32,
    pub month: u32,
    pub day: u32,
    pub hour: u32,
    pub minute: u32,
    pub second: u32,
}

impl Timestamp {
    /// Every field lies in its calendar range, and the year has four digits.
    pub open spec fn wf(&self) -> bool {
        &&& self.year <= 9999
        &&& 1 <= self.month <= 12
        &&& 1 <= self.day <= 31
        &&& self.hour <= 23
        &&& self.minute <= 59
        &&& self.second <= 60
    }

    /// `YYYYMMDD-HHMMSS`.
    pub open spec fn compact_text(&self) -> Seq<char> {
        pad4(self.year as nat) + pad2(self.month as nat) + pad2(self.day as nat) + seq!['-']
            + pad2(self.hour as nat) + pad2(self.minute as nat) + pad2(self.second as nat)
    }

    /// `YYYY-MM-DD HH:MM:SS`.
    pub open spec fn display_text(&self) -> Seq<char> {
        pad4(self.year as nat) + seq!['-'] + pad2(self.month as nat) + seq!['-'] + pad2(self.day as nat)
            + seq![' '] + pad2(self.hour as nat) + seq![':'] + pad2(self.minute as nat) + seq![':']
            + pad2(self.second as nat)
    }

    /// The time as `YYYYMMDD-HHMMSS`, the prefix of a note's file name.
    pub fn compact(&self) -> (r: String)
        requires
            self.wf(),
        ensures
            r@ == self.compact_text(),
    {
        let mut v: Vec<char> = Vec::new();
        push_pad4(&mut v, self.year);
        push_pad2(&mut v, self.month);
        push_pad2(&mut v, self.day);
        v.push('-');
        push_pad2(&mut v, self.hour);
        push_pad2(&mut v, self.minute);
        push_pad2(&mut v, self.second);
        assert(v@ =~= self.compact_text());
        string_of(&v)
    }

    /// The time as `YYYY-MM-DD HH:MM:SS`, as a note's header shows it.
    pub fn display(&self) -> (r: String)
        requires
            self.wf(),
        ensures
            r@ == self.display_text(),
    {
        let mut v: Vec<char> = Vec::new();
        push_pad4(&mut v, self.year);
        v.push('-');
        push_pad2(&mut v, self.month);
        v.push('-');
        push_pad2(&mut v, self.day);
        v.push(' ');
        push_pad2(&mut v, self.hour);
        v.push(':');
        push_pad2(&mut v, self.minute);
        v.push(':');
        push_pad2(&mut v, self.second);
        assert(v@ =~= self.display_text());
        string_of(&v)
    }
}

/// The blob file name of a note created at `t`: `{YYYYMMDD-HHMMSS}-{sanitized title}.{ext}`.
pub open spec fn note_filename_text(t: Timestamp, title: Seq<char>, ext: Seq<char>) -> Seq<char> {
    t.compact_text() + seq!['-'] + sanitized(title) + seq!['.'] + ext
}

/// The plaintext file name that a note exports to: `{sanitized title}.{ext}`.
pub open spec fn export_filename_text(title: Seq<char>, ext: Seq<char>) -> Seq<char> {
    sanitized(title) + seq!['.'] + ext
}

/// The name of the scratch file beside a blob while the blob is edited.
pub open spec fn temp_filename_text(filename: Seq<char>) -> Seq<char> {
    filename + seq!['.', 't', 'e', 'm', 'p']
}

/// The content of a new note: a header with its title and time, and an empty body.
pub open spec fn note_header_text(title: Seq<char>, t: Timestamp) -> Seq<char> {
    "---\ntitle: "@ + title + "\ndate: "@ + t.display_text() + "\n---\n\n"@
}

fn concat_chars(a: &str, b: &str) -> (r: String)
    ensures
        r@ == a@ + b@,
{
    let mut v = chars_of(a);
    let mut w = chars_of(b);
    v.append(&mut w);
    string_of(&v)
}

/// The blob file name of a note titled `title` and created at `t`.
pub fn note_filename(t: &Timestamp, title: &str, ext: &str) -> (r: String)
    requires
        t.wf(),
    ensures
        r@ == note_filename_text(*t, title@, ext@),
{
    let mut v = chars_of(t.compact().as_str());
    v.push('-');
    let mut s = chars_of(sanitize_filename(title).as_str());
    v.append(&mut s);
    v.push('.');
    let mut e = chars_of(ext);
    v.append(&mut e);
    assert(v@ =~= note_filename_text(*t, title@, ext@));
    string_of(&v)
}

/// The file name that a note titled `title` exports to.
pub fn export_filename(title: &str, ext: &str) -> (r: String)
    ensures
        r@ == export_filename_text(title@, ext@),
{
    let mut v = chars_of(sanitize_filename(title).as_str());
    v.push('.');
    let mut e = chars_of(ext);
    v.append(&mut e);
    assert(v@ =~= export_filename_text(title@, ext@));
    string_of(&v)
}

/// The scratch file name beside the blob `filename` while it is edited.
pub fn temp_filename(filename: &str) -> (r: String)
    ensures
        r@ == temp_filename_text(filename@),
{
    let mut v = chars_of(filename);
    v.push('.');
    v.push('t');
    v.push('e');
    v.push('m');
    v.push('p');
    assert(v@ =~= temp_filename_text(filename@));
    string_of(&v)
}

/// The content of a new note titled `title`, created at `t`.
pub fn note_header(title: &str, t: &Timestamp) -> (r: String)
    requires
        t.wf(),
    ensures
        r@ == note_header_text(title@, *t),
{
    let head = concat_chars("---\ntitle: ", title);
    let mid = concat_chars(head.as_str(), "\ndate: ");
    let dated = concat_chars(mid.as_str(), t.display().as_str());
    concat_chars(dated.as_str(), "\n---\n\n")
}

} // verus!
