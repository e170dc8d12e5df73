//! String-related utilities.

use vstd::prelude::*;

verus! {

/// The characters that `c` becomes in upper case.
pub uninterp spec fn upper_of(c: char) -> Seq<char>;

/// The characters that `c` becomes in lower case.
pub uninterp spec fn lower_of(c: char) -> Seq<char>;

/// The parts of `s` between line feeds: one more than there are line feeds.
pub open spec fn line_parts(s: Seq<char>) -> Seq<Seq<char>>
    decreases s.len(),
{
    if s.len() == 0 {
        seq![Seq::empty()]
    } else {
        let p = line_parts(s.drop_last());
        if s.last() == '\n' {
            p.push(Seq::empty())
        } else {
            p.update(p.len() - 1, p.last().push(s.last()))
        }
    }
}

/// A line without the carriage return that ends it, if any.
pub open spec fn strip_cr(l: Seq<char>) -> Seq<char> {
    if l.len() > 0 && l.last() == '\r' {
        l.drop_last()
    } else {
        l
    }
}

/// The lines of `s`, split at `\n` or `\r\n`, without their line endings; a last part without a line
/// ending is a line only if it is not empty.
pub open spec fn lines_of(s: Seq<char>) -> Seq<Seq<char>> {
    let p = line_parts(s);
    Seq::new((p.len() - 1) as nat, |i: int| strip_cr(p[i])) + if p.last().len() > 0 {
        seq![p.last()]
    } else {
        Seq::empty()
    }
}

/// Relies on `char::to_uppercase`: the characters that `c` becomes in upper case, which depend on `c`
/// alone.
#[verifier::external_body]
fn to_upper(c: char) -> (r: String)
    ensures
        r@ == upper_of(c),
{
    c.to_uppercase().collect::<String>()
}

/// Relies on `char::to_lowercase`: the characters that `c` becomes in lower case, which depend on `c`
/// alone.
#[verifier::external_body]
fn to_lower(c: char) -> (r: String)
    ensures
        r@ == lower_of(c),
{
    c.to_lowercase().collect::<String>()
}

/// Relies on `str::lines`: the lines of `s`, split at `\n` or `\r\n`, without their line endings, and
/// without a final empty line.
#[verifier::external_body]
fn lines(s: &str) -> (r: Vec<String>)
    ensures
        r@.len() == lines_of(s@).len(),
        forall|i: int| 0 <= i < r@.len() ==> (#[trigger] r@[i])@ == lines_of(s@)[i],
{
    s.lines().map(String::from).collect()
}

/// Relies on `String::push`: appends `c` to `s`.
#[verifier::external_body]
fn push_char(s: &mut String, c: char)
    ensures
        final(s)@ == old(s)@.push(c),
{
    s.push(c)
}

/// `s` with its first character replaced by the characters `first` gives.
pub open spec fn with_first(s: Seq<char>, first: spec_fn(char) -> Seq<char>) -> Seq<char> {
    if s.len() == 0 {
        Seq::empty()
    } else {
        first(s[0]) + s.subrange(1, s.len() as int)
    }
}

/// The lines `ls`, each behind `c` and a space, each followed by a line break.
pub open spec fn fenced_lines(c: char, ls: Seq<Seq<char>>) -> Seq<char>
    decreases ls.len(),
{
    if ls.len() == 0 {
        Seq::empty()
    } else {
        fenced_lines(c, ls.drop_last()) + seq![c, ' '] + ls.last() + seq!['\n']
    }
}

/// The text `s` in a fence made of `c`, `width` - 1 characters wide.
pub open spec fn fenced(s: Seq<char>, c: char, width: nat) -> Seq<char> {
    let row = Seq::new((width - 1) as nat, |i: int| c);
    row + seq!['\n', c, '\n'] + fenced_lines(c, lines_of(s)) + seq![c, '\n'] + row
}

/// An extension trait for strings.
pub trait StrExt: View<V = Seq<char>> {
    /// Creates a new [`String`] by enclosing this string in back ticks.
    fn bt(&self) -> (r: String)
        ensures
            r@ == seq!['`'] + self@ + seq!['`'],
    ;

    /// Creates a new [`String`] by converting the first [`char`] of this string to uppercase.
    fn capitalize(&self) -> (r: String)
        ensures
            r@ == with_first(self@, |c: char| upper_of(c)),
    ;

    /// Creates a new [`String`] by putting this string, which may be a multi-line string, into a fence that
    /// is made up of `c` and `text_width` - 1 characters wide.
    fn fence(&self, c: char, text_width: usize) -> (r: String)
        requires
            text_width >= 1,
        ensures
            r@ == fenced(self@, c, text_width as nat),
    ;

    /// Creates a new [`String`] by converting the first [`char`] of this string to lowercase.
    fn uncapitalize(&self) -> (r: String)
        ensures
            r@ == with_first(self@, |c: char| lower_of(c)),
    ;
}

impl StrExt for str {
    fn bt(&self) -> (r: String) {
        let mut ret = String::new();
        push_char(&mut ret, '`');
        ret.append(self);
        push_char(&mut ret, '`');
        assert(ret@ =~= seq!['`'] + self@ + seq!['`']);
        ret
    }

    fn capitalize(&self) -> (r: String) {
        let n = self.unicode_len();
        if n == 0 {
            let e = String::new();
            assert(e@ =~= with_first(self@, |c: char| upper_of(c)));
            return e;
        }
        let ret = to_upper(self.get_char(0)).concat(self.substring_char(1, n));
        assert(ret@ =~= with_first(self@, |c: char| upper_of(c)));
        ret
    }

    fn fence(&self, c: char, text_width: usize) -> (r: String) {
        let mut row = String::new();
        let mut i: usize = 0;
        while i < text_width - 1
            invariant
                i <= text_width - 1,
                row@ =~= Seq::new(i as nat, |j: int| c),
            decreases text_width - 1 - i,
        {
            push_char(&mut row, c);
            i = i + 1;
        }
        let mut ret = String::new();
        ret.append(row.as_str());
        push_char(&mut ret, '\n');
        push_char(&mut ret, c);
        push_char(&mut ret, '\n');
        let ghost head = ret@;
        let ls = lines(self);
        let mut k: usize = 0;
        while k < ls.len()
            invariant
                k <= ls@.len(),
                ls@.len() == lines_of(self@).len(),
                forall|j: int| 0 <= j < ls@.len() ==> (#[trigger] ls@[j])@ == lines_of(self@)[j],
                ret@ == head + fenced_lines(c, lines_of(self@).subrange(0, k as int)),
            decreases ls@.len() - k,
        {
            push_char(&mut ret, c);
            push_char(&mut ret, ' ');
            ret.append(ls[k].as_str());
            push_char(&mut ret, '\n');
            proof {
                let sub = lines_of(self@).subrange(0, k + 1);
                assert(sub.drop_last() =~= lines_of(self@).subrange(0, k as int));
                assert(ret@ =~= head + fenced_lines(c, sub));
            }
            k = k + 1;
        }
        push_char(&mut ret, c);
        push_char(&mut ret, '\n');
        ret.append(row.as_str());
        proof {
            assert(lines_of(self@).subrange(0, ls@.len() as int) =~= lines_of(self@));
            assert(ret@ =~= fenced(self@, c, text_width as nat));
        }
        ret
    }

    fn uncapitalize(&self) -> (r: String) {
        let n = self.unicode_len();
        if n == 0 {
            let e = String::new();
            assert(e@ =~= with_first(self@, |c: char| lower_of(c)));
            return e;
        }
        let ret = to_lower(self.get_char(0)).concat(self.substring_char(1, n));
        assert(ret@ =~= with_first(self@, |c: char| lower_of(c)));
        ret
    }
}

} // verus!
