//! Path lists and path joining: how a search-path value is cut into
//! directories, and how a directory and a file name form a candidate path.
use vstd::prelude::*;

verus! {

/// The platform's conventions for path lists and path joining.
#[derive(Clone, Copy, Debug, PartialEq, Eq, Structural)]
pub struct PathConvention {
    /// Separates the directories of a search-path list.
    pub delimiter: char,
    /// Inserted between a directory and a file name.
    pub separator: char,
    /// A second character that also ends a directory (the same as
    /// `separator` where there is only one).
    pub alt_separator: char,
}

impl PathConvention {
    /// Whether `c` separates path components under this convention.
    pub open spec fn spec_is_separator(self, c: char) -> bool {
        c == self.separator || c == self.alt_separator
    }

    /// Colon-delimited lists, `/` between components.
    pub fn posix() -> (conv: PathConvention)
        ensures
            conv.delimiter == ':',
            conv.separator == '/',
            conv.alt_separator == '/',
    {
        PathConvention { delimiter: ':', separator: '/', alt_separator: '/' }
    }

    /// Semicolon-delimited lists, `\` between components, `/` accepted too.
    pub fn windows() -> (conv: PathConvention)
        ensures
            conv.delimiter == ';',
            conv.separator == '\\',
            conv.alt_separator == '/',
    {
        PathConvention { delimiter: ';', separator: '\\', alt_separator: '/' }
    }

    pub fn is_separator(&self, c: char) -> (r: bool)
        ensures
            r == self.spec_is_separator(c),
    {
        c == self.separator || c == self.alt_separator
    }
}

/// The character sequences held by a sequence of strings.
pub open spec fn views(v: Seq<String>) -> Seq<Seq<char>> {
    v.map_values(|s: String| s@)
}

/// The segments of `s` between occurrences of `d`, in order. Empty segments
/// (from a leading, trailing or doubled delimiter) are kept, and an empty `s`
/// has one empty segment.
pub open spec fn split_on(s: Seq<char>, d: char) -> Seq<Seq<char>>
    decreases s.len(),
{
    if s.len() == 0 {
        seq![Seq::empty()]
    } else {
        let init = split_on(s.drop_last(), d);
        if s.last() == d {
            init.push(Seq::empty())
        } else {
            init.update(init.len() - 1, init.last().push(s.last()))
        }
    }
}

/// The path naming `name` inside `dir`: a separator goes between them unless
/// `dir` already ends with one; an empty `dir` adds nothing to `name`.
pub open spec fn join_spec(dir: Seq<char>, name: Seq<char>, conv: PathConvention) -> Seq<char> {
    if dir.len() == 0 {
        name
    } else if conv.spec_is_separator(dir.last()) {
        dir + name
    } else {
        dir.push(conv.separator) + name
    }
}

/// Relies on `String::push`: appends the character at the end.
#[verifier::external_body]
fn push_char(s: &mut String, c: char)
    ensures
        final(s)@ == old(s)@.push(c),
{
    s.push(c)
}

/// Cuts a search-path list into its directories, in order.
pub fn split_path_list(list: &str, delimiter: char) -> (dirs: Vec<String>)
    ensures
        views(dirs@) == split_on(list@, delimiter),
{
    let n = list.unicode_len();
    let mut dirs: Vec<String> = Vec::new();
    let mut start: usize = 0;
    let mut i: usize = 0;
    proof {
        assert(views(dirs@) =~= Seq::<Seq<char>>::empty());
        assert(list@.take(0) =~= Seq::<char>::empty());
        assert(list@.subrange(0, 0) =~= Seq::<char>::empty());
    }
    while i < n
        invariant
            n == list@.len(),
            start <= i <= n,
            views(dirs@).push(list@.subrange(start as int, i as int)) == split_on(
                list@.take(i as int),
                delimiter,
            ),
        decreases n - i,
    {
        let c = list.get_char(i);
        proof {
            assert(list@.take(i + 1).drop_last() =~= list@.take(i as int));
            assert(list@.take(i + 1).last() == c);
        }
        if c == delimiter {
            let piece = String::from_str(list.substring_char(start, i));
            proof {
                assert(views(dirs@.push(piece)) =~= views(dirs@).push(piece@));
                assert(list@.subrange(i + 1, i + 1) =~= Seq::<char>::empty());
            }
            dirs.push(piece);
            start = i + 1;
        } else {
            proof {
                assert(list@.subrange(start as int, i + 1) =~= list@.subrange(
                    start as int,
                    i as int,
                ).push(c));
                assert(views(dirs@).push(list@.subrange(start as int, i + 1)) =~= views(
                    dirs@,
                ).push(list@.subrange(start as int, i as int)).update(
                    dirs@.len() as int,
                    list@.subrange(start as int, i + 1),
                ));
            }
        }
        i = i + 1;
    }
    let last = String::from_str(list.substring_char(start, n));
    proof {
        assert(views(dirs@.push(last)) =~= views(dirs@).push(last@));
        assert(list@.take(n as int) =~= list@);
    }
    dirs.push(last);
    dirs
}

/// Joins a directory and a file name into one path.
pub fn join_path(dir: &str, name: &str, conv: PathConvention) -> (path: String)
    ensures
        path@ == join_spec(dir@, name@, conv),
{
    let n = dir.unicode_len();
    if n == 0 {
        return String::from_str(name);
    }
    let mut path = String::from_str(dir);
    if !conv.is_separator(dir.get_char(n - 1)) {
        push_char(&mut path, conv.separator);
    }
    path.append(name);
    path
}

} // verus!
