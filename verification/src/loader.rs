//! The in-container file-loader service's decision core: which walked
//! files the extension filter admits. Walking the tree, reading contents
//! and streaming the records back are I/O performed by the unverified
//! server around this crate.
use vstd::prelude::*;

verus! {

/// The file-loader service.
pub struct MyLoaderExecutor;

/// The index of the last occurrence of `c` in `s`, or `-1` when it has
/// none.
pub open spec fn spec_last_index_of(s: Seq<char>, c: char) -> int
    decreases s.len(),
{
    if s.len() == 0 {
        -1
    } else if s.last() == c {
        s.len() - 1
    } else {
        spec_last_index_of(s.drop_last(), c)
    }
}

proof fn lemma_last_index_of_is(s: Seq<char>, c: char, i: int)
    requires
        -1 <= i < s.len(),
        i >= 0 ==> s[i] == c,
        forall|j: int| i < j < s.len() ==> s[j] != c,
    ensures
        spec_last_index_of(s, c) == i,
    decreases s.len(),
{
    if s.len() == 0 {
    } else if s.last() == c {
        assert(i == s.len() - 1);
    } else {
        assert(i < s.len() - 1);
        assert forall|j: int| i < j < s.drop_last().len() implies s.drop_last()[j] != c by {
            assert(s.drop_last()[j] == s[j]);
        }
        if i >= 0 {
            assert(s.drop_last()[i] == s[i]);
        }
        lemma_last_index_of_is(s.drop_last(), c, i);
    }
}

/// The file name of a path: everything after the last separator, or the
/// whole path when it has none.
pub open spec fn spec_file_name(p: Seq<char>) -> Seq<char> {
    p.skip(spec_last_index_of(p, '/') + 1)
}

/// The extension of a path, under this crate's path model: the portion of
/// the file name after its last `.`; none when the name has no `.`, when
/// its only `.` leads it (a hidden file), or when the name is the parent
/// reference `..`.
pub open spec fn spec_extension(p: Seq<char>) -> Option<Seq<char>> {
    let name = spec_file_name(p);
    if name == ".."@ {
        None
    } else {
        let dot = spec_last_index_of(name, '.');
        if dot <= 0 {
            None
        } else {
            Some(name.skip(dot + 1))
        }
    }
}

/// The filter admits a file when no extensions were requested, or when the
/// file's extension is one of those requested.
pub open spec fn spec_matches_extension(p: Seq<char>, extensions: Seq<String>) -> bool {
    extensions.len() == 0 || (spec_extension(p) matches Some(ext) && exists|i: int|
        0 <= i < extensions.len() && extensions[i]@ == ext)
}

/// Computes the extension of a path, as `spec_extension` describes.
fn extension_of(p: &str) -> (r: Option<String>)
    ensures
        r is Some <==> spec_extension(p@) is Some,
        r matches Some(ext) ==> spec_extension(p@) == Some(ext@),
{
    let m = p.unicode_len();
    let mut start: usize = m;
    while start > 0
        invariant_except_break
            0 <= start <= m == p@.len(),
            forall|j: int| start <= j < m ==> p@[j] != '/',
        ensures
            0 <= start <= m == p@.len(),
            forall|j: int| start <= j < m ==> p@[j] != '/',
            start > 0 ==> p@[start - 1] == '/',
        decreases start,
    {
        if p.get_char(start - 1) == '/' {
            break;
        }
        start -= 1;
    }
    proof {
        lemma_last_index_of_is(p@, '/', start as int - 1);
    }
    let name = p.substring_char(start, m);
    let ghost nv = p@.skip(start as int);
    proof {
        assert(name@ =~= nv);
    }

    let dotdot = "..".to_owned();
    if name.to_owned() == dotdot {
        return None;
    }
    proof {
        assert(nv != ".."@);
    }

    let n = name.unicode_len();
    let mut dot: usize = n;
    while dot > 0
        invariant_except_break
            0 <= dot <= n == nv.len(),
            name@ == nv,
            forall|j: int| dot <= j < n ==> nv[j] != '.',
        ensures
            0 <= dot <= n == nv.len(),
            name@ == nv,
            forall|j: int| dot <= j < n ==> nv[j] != '.',
            dot > 0 ==> nv[dot - 1] == '.',
        decreases dot,
    {
        if name.get_char(dot - 1) == '.' {
            break;
        }
        dot -= 1;
    }
    proof {
        lemma_last_index_of_is(nv, '.', dot as int - 1);
    }
    if dot <= 1 {
        return None;
    }
    let ext = name.substring_char(dot, n).to_owned();
    proof {
        assert(ext@ =~= nv.skip(dot as int));
    }
    Some(ext)
}

impl MyLoaderExecutor {
    /// Decides whether the filter admits a walked file, as
    /// `spec_matches_extension` describes.
    pub fn matches_extension(&self, p: &str, extensions: &Vec<String>) -> (r: bool)
        ensures
            r == spec_matches_extension(p@, extensions@),
    {
        if extensions.len() == 0 {
            return true;
        }
        let ext = match extension_of(p) {
            Some(ext) => ext,
            None => {
                return false;
            },
        };
        let mut i: usize = 0;
        while i < extensions.len()
            invariant
                0 <= i <= extensions@.len(),
                spec_extension(p@) == Some(ext@),
                forall|j: int| 0 <= j < i ==> #[trigger] extensions@[j]@ != ext@,
            decreases extensions@.len() - i,
        {
            if extensions[i] == ext {
                return true;
            }
            i += 1;
        }
        false
    }
}

} // verus!
