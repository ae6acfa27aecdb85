//! Paths as text, with `/` as the separator: joining, the final component,
//! and the directory that a key's public identifier is kept in.

use crate::text::chars_of;
use vstd::prelude::*;

verus! {

/// `name` placed under `base`. A `name` that begins at the root stands for
/// itself; a separator is put between the two unless `base` is empty or
/// already ends in one.
pub open spec fn join(base: Seq<char>, name: Seq<char>) -> Seq<char> {
    if name.len() > 0 && name[0] == '/' {
        name
    } else if base.len() == 0 || base.last() == '/' {
        base + name
    } else {
        base.push('/') + name
    }
}

/// What follows the last separator of `p`.
pub open spec fn last_segment(p: Seq<char>) -> Seq<char>
    decreases p.len(),
{
    if p.len() == 0 || p.last() == '/' {
        Seq::empty()
    } else {
        last_segment(p.drop_last()).push(p.last())
    }
}

/// The final component of `p`, if it names something: trailing separators
/// and trailing `.` components are passed over, and a path that ends in `..`
/// or has no component at all has no file name.
pub open spec fn file_name(p: Seq<char>) -> Option<Seq<char>>
    decreases p.len(),
{
    if p.len() == 0 {
        None
    } else if p.last() == '/' {
        file_name(p.drop_last())
    } else if last_segment(p) == seq!['.', '.'] {
        None
    } else if last_segment(p) == seq!['.'] {
        if p.len() == 1 {
            None
        } else {
            file_name(p.drop_last())
        }
    } else {
        Some(last_segment(p))
    }
}

/// The directory under `root` that holds the key with public identifier
/// `pubkey`: its name is `0x` followed by the identifier.
pub open spec fn destination_dir(root: Seq<char>, pubkey: Seq<char>) -> Seq<char> {
    join(root, seq!['0', 'x'] + pubkey)
}

/// Where the file at `candidate` goes when it is moved into `dir`: it keeps
/// its file name. A candidate without a file name goes nowhere.
pub open spec fn relocated(dir: Seq<char>, candidate: Seq<char>) -> Option<Seq<char>> {
    match file_name(candidate) {
        Some(name) => Some(join(dir, name)),
        None => None,
    }
}

/// Joins two paths.
pub fn join_exec(base: &str, name: &str) -> (out: String)
    ensures
        out@ == join(base@, name@),
{
    let base_len: usize = base.unicode_len();
    let name_len: usize = name.unicode_len();
    if name_len > 0 && name.get_char(0) == '/' {
        return String::from_str(name);
    }
    let mut out: String = String::from_str(base);
    if base_len > 0 && base.get_char(base_len - 1) != '/' {
        proof {
            reveal_strlit("/");
        }
        out.append("/");
        assert(out@ =~= base@.push('/'));
    }
    out.append(name);
    out
}

/// The final component of `path`.
pub fn file_name_exec(path: &str) -> (out: Option<String>)
    ensures
        match out {
            Some(name) => file_name(path@) == Some(name@),
            None => file_name(path@).is_none(),
        },
{
    let v: Vec<char> = chars_of(path);
    let mut end: usize = v.len();
    assert(v@.take(end as int) =~= v@);
    loop
        invariant
            v@ == path@,
            end <= v.len(),
            file_name(v@) == file_name(v@.take(end as int)),
        decreases end,
    {
        if end == 0 {
            return None;
        }
        let ghost p = v@.take(end as int);
        assert(p.drop_last() =~= v@.take(end - 1));
        assert(p.last() == v@[end - 1]);
        if v[end - 1] == '/' {
            end = end - 1;
        } else {
            let mut start: usize = end;
            assert(v@.subrange(start as int, end as int) =~= Seq::<char>::empty());
            while start > 0 && v[start - 1] != '/'
                invariant
                    start <= end <= v.len(),
                    p == v@.take(end as int),
                    forall|j: int| start <= j < end ==> v@[j] != '/',
                    last_segment(p) == last_segment(v@.take(start as int)) + v@.subrange(
                        start as int,
                        end as int,
                    ),
                decreases start,
            {
                proof {
                    let q = v@.take(start as int);
                    assert(q.drop_last() =~= v@.take(start - 1));
                    assert(last_segment(q) == last_segment(q.drop_last()).push(q.last()));
                    assert(last_segment(q.drop_last()).push(q.last()) + v@.subrange(
                        start as int,
                        end as int,
                    ) =~= last_segment(q.drop_last()) + v@.subrange(start - 1, end as int));
                }
                start = start - 1;
            }
            assert(last_segment(v@.take(start as int)) =~= Seq::<char>::empty());
            assert(last_segment(p) =~= v@.subrange(start as int, end as int));
            let len: usize = end - start;
            if len == 2 && v[start] == '.' && v[start + 1] == '.' {
                assert(last_segment(p) =~= seq!['.', '.']);
                return None;
            } else if len == 1 && v[start] == '.' {
                assert(last_segment(p) =~= seq!['.']);
                if end == 1 {
                    return None;
                }
                end = end - 1;
            } else {
                assert(last_segment(p) != seq!['.', '.']) by {
                    if last_segment(p) == seq!['.', '.'] {
                        assert(last_segment(p).len() == 2);
                        assert(last_segment(p)[0] == '.' && last_segment(p)[1] == '.');
                    }
                }
                assert(last_segment(p) != seq!['.']) by {
                    if last_segment(p) == seq!['.'] {
                        assert(last_segment(p).len() == 1);
                        assert(last_segment(p)[0] == '.');
                    }
                }
                return Some(String::from_str(path.substring_char(start, end)));
            }
        }
    }
}

/// The directory under `root` for the key with public identifier `pubkey`.
pub fn destination_dir_exec(root: &str, pubkey: &str) -> (out: String)
    ensures
        out@ == destination_dir(root@, pubkey@),
{
    proof {
        reveal_strlit("0x");
    }
    let mut name: String = String::from_str("0x");
    name.append(pubkey);
    assert(name@ =~= seq!['0', 'x'] + pubkey@);
    join_exec(root, name.as_str())
}

/// Where the file at `candidate` goes when it is moved into `dir`.
pub fn relocated_exec(dir: &str, candidate: &str) -> (out: Option<String>)
    ensures
        match out {
            Some(path) => relocated(dir@, candidate@) == Some(path@),
            None => relocated(dir@, candidate@).is_none(),
        },
{
    match file_name_exec(candidate) {
        Some(name) => Some(join_exec(dir, name.as_str())),
        None => None,
    }
}

/// Two public identifiers that share a directory under one root are the same
/// identifier: directories and identities correspond one to one.
pub proof fn lemma_destination_dir_injective(root: Seq<char>, a: Seq<char>, b: Seq<char>)
    requires
        destination_dir(root, a) == destination_dir(root, b),
    ensures
        a == b,
{
    let na = seq!['0', 'x'] + a;
    let nb = seq!['0', 'x'] + b;
    assert(na[0] == '0' && nb[0] == '0');
    let prefix = if root.len() == 0 || root.last() == '/' {
        root
    } else {
        root.push('/')
    };
    assert(destination_dir(root, a) == prefix + na);
    assert(destination_dir(root, b) == prefix + nb);
    assert(a =~= (prefix + na).skip(prefix.len() as int + 2));
    assert(b =~= (prefix + nb).skip(prefix.len() as int + 2));
}

/// A name of one component: not empty, and without a separator.
pub open spec fn plain_name(name: Seq<char>) -> bool {
    name.len() > 0 && forall|i: int| 0 <= i < name.len() ==> name[i] != '/'
}

/// What follows the last separator holds no separator, and is not empty
/// unless the path is empty or ends in a separator.
pub proof fn lemma_last_segment_plain(p: Seq<char>)
    ensures
        forall|i: int| 0 <= i < last_segment(p).len() ==> last_segment(p)[i] != '/',
        p.len() > 0 && p.last() != '/' ==> last_segment(p).len() > 0,
    decreases p.len(),
{
    if p.len() > 0 && p.last() != '/' {
        lemma_last_segment_plain(p.drop_last());
        let before = last_segment(p.drop_last());
        assert(last_segment(p) == before.push(p.last()));
        assert forall|i: int| 0 <= i < last_segment(p).len() implies last_segment(p)[i]
            != '/' by {
            if i < before.len() {
                assert(last_segment(p)[i] == before[i]);
            }
        }
    }
}

/// A file name is the name of one component.
pub proof fn lemma_file_name_plain(p: Seq<char>)
    ensures
        match file_name(p) {
            Some(name) => plain_name(name),
            None => true,
        },
    decreases p.len(),
{
    if p.len() > 0 {
        lemma_last_segment_plain(p);
        if p.last() == '/' || (last_segment(p) == seq!['.'] && p.len() > 1) {
            lemma_file_name_plain(p.drop_last());
        }
    }
}

} // verus!
