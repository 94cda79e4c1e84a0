//! Finding an executable the way the shell would: through each directory on `PATH` in turn,
//! trying the name with each `PATHEXT` extension before the bare name.
//!
//! The extensions come before the bare name because a tool's install can put both `code` and
//! `code.cmd` in one directory, where the extensionless one is a script the platform cannot
//! run. Where `PATHEXT` is unset the list of extensions is empty and the bare name is tried at
//! once. Which candidate exists is the caller's to find out; the order is decided here.

use vstd::prelude::*;

use crate::discover::{join, spec_join};
use crate::text::{chars_of, string_of};
use crate::watch::strs;

verus! {

/// Where a split of `s` on `sep` has got to: the non-empty pieces finished so far, and the
/// piece being read.
pub open spec fn split_state(s: Seq<char>, sep: char) -> (Seq<Seq<char>>, Seq<char>)
    decreases s.len(),
{
    if s.len() == 0 {
        (Seq::empty(), Seq::empty())
    } else {
        let (done, current) = split_state(s.drop_last(), sep);
        if s.last() == sep {
            if current.len() > 0 { (done.push(current), Seq::empty()) } else { (done, Seq::empty()) }
        } else {
            (done, current.push(s.last()))
        }
    }
}

/// The non-empty pieces of `s` between occurrences of `sep`, in order.
pub open spec fn spec_split_list(s: Seq<char>, sep: char) -> Seq<Seq<char>> {
    let (done, current) = split_state(s, sep);
    if current.len() > 0 { done.push(current) } else { done }
}

/// The non-empty pieces of `value` between `;`s: the extensions a `PATHEXT` names.
pub fn split_list(value: &str) -> (pieces: Vec<String>)
    ensures
        strs(pieces@) == spec_split_list(value@, ';'),
{
    let chars = chars_of(value);
    let mut done: Vec<String> = Vec::new();
    let mut current: Vec<char> = Vec::new();
    let n = chars.len();
    for i in 0..n
        invariant
            n == chars@.len(),
            chars@ == value@,
            (strs(done@), current@) == split_state(chars@.take(i as int), ';'),
    {
        let c = chars[i];
        proof {
            assert(chars@.take(i + 1).drop_last() =~= chars@.take(i as int));
            assert(chars@.take(i + 1).last() == c);
        }
        if c == ';' {
            if current.len() > 0 {
                let ghost before = done@;
                done.push(string_of(current.as_slice()));
                assert(strs(done@) =~= strs(before).push(current@));
            }
            current = Vec::new();
            assert(current@ =~= Seq::<char>::empty());
        } else {
            current.push(c);
        }
    }
    assert(chars@.take(n as int) =~= value@);
    if current.len() > 0 {
        let ghost before = done@;
        done.push(string_of(current.as_slice()));
        assert(strs(done@) =~= strs(before).push(current@));
    }
    done
}

/// The files to try for `program` in one directory, in order: the name with each extension,
/// then the bare name.
pub open spec fn dir_tries(program: Seq<char>, dir: Seq<char>, exts: Seq<Seq<char>>) -> Seq<Seq<char>> {
    exts.map_values(|ext: Seq<char>| spec_join(dir, program + ext)).push(spec_join(dir, program))
}

/// Every file to try for `program`, directory by directory in `PATH` order.
pub open spec fn spec_candidates(program: Seq<char>, dirs: Seq<Seq<char>>, exts: Seq<Seq<char>>) -> Seq<Seq<char>>
    decreases dirs.len(),
{
    if dirs.len() == 0 {
        Seq::empty()
    } else {
        spec_candidates(program, dirs.drop_last(), exts) + dir_tries(program, dirs.last(), exts)
    }
}

/// The files to try for `program`, in the order the shell tries them.
pub fn candidates(program: &str, dirs: &[String], exts: &[String]) -> (tries: Vec<String>)
    ensures
        strs(tries@) == spec_candidates(program@, strs(dirs@), strs(exts@)),
{
    let mut tries: Vec<String> = Vec::new();
    let ghost ev = strs(exts@);
    for d in 0..dirs.len()
        invariant
            ev == strs(exts@),
            strs(tries@) == spec_candidates(program@, strs(dirs@.take(d as int)), ev),
    {
        let dir = dirs[d].as_str();
        let ghost start = strs(tries@);
        for e in 0..exts.len()
            invariant
                ev == strs(exts@),
                dir@ == dirs@[d as int]@,
                strs(tries@) == start + ev.take(e as int).map_values(|ext: Seq<char>| spec_join(dir@, program@ + ext)),
        {
            let mut name = program.to_owned();
            name.append(exts[e].as_str());
            let ghost before = strs(tries@);
            tries.push(join(dir, name.as_str()));
            proof {
                assert(strs(tries@) =~= before.push(spec_join(dir@, program@ + ev[e as int])));
                assert(ev.take(e + 1).map_values(|ext: Seq<char>| spec_join(dir@, program@ + ext))
                    =~= ev.take(e as int).map_values(|ext: Seq<char>| spec_join(dir@, program@ + ext)).push(spec_join(dir@, program@ + ev[e as int])));
            }
        }
        let ghost before = strs(tries@);
        tries.push(join(dir, program));
        proof {
            assert(ev.take(ev.len() as int) =~= ev);
            assert(strs(tries@) =~= before.push(spec_join(dir@, program@)));
            assert(strs(dirs@.take(d + 1)).drop_last() =~= strs(dirs@.take(d as int)));
            assert(strs(dirs@.take(d + 1)).last() == dir@);
            assert(strs(tries@) =~= start + dir_tries(program@, dir@, ev));
        }
    }
    assert(dirs@.take(dirs@.len() as int) =~= dirs@);
    tries
}

/// `Path::components`, counted: how many components `program` has as a path. They follow the
/// platform's path syntax, so nothing is promised of the number.
#[verifier::external_body]
fn component_count(program: &str) -> usize {
    std::path::Path::new(program).components().count()
}

/// `Path::extension`, whether there is one. It follows the platform's path syntax, so nothing
/// is promised.
#[verifier::external_body]
fn has_extension(program: &str) -> bool {
    std::path::Path::new(program).extension().is_some()
}

/// Whether a program is run as named rather than looked up on `PATH`: a path of more than one
/// component, relative or absolute, or a name that already carries its extension. The
/// platform's own program lookup handles both.
pub open spec fn spec_as_given(components: usize, extension: bool) -> bool {
    components > 1 || extension
}

/// Whether a program with `components` path components, and an extension or not, is run as
/// named.
pub fn as_given(components: usize, extension: bool) -> (given: bool)
    ensures
        given == spec_as_given(components, extension),
{
    components > 1 || extension
}

/// Whether `program` is run as named rather than looked up on `PATH`, by its components and
/// extension as the platform's path syntax reads them.
pub fn used_as_given(program: &str) -> (given: bool)
    ensures
        exists|components: usize, extension: bool| given == #[trigger] spec_as_given(components, extension),
{
    let components = component_count(program);
    let extension = has_extension(program);
    let given = as_given(components, extension);
    assert(given == spec_as_given(components, extension));
    given
}

} // verus!
