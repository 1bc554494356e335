//! The input a session is started from: a list of mapping names with one
//! size each, or a list of names whose backing files are only to be removed.
use vstd::prelude::*;

verus! {

/// What a session is asked to do.
pub enum Command {
    /// Create a mapping for each name, of the size at the same position,
    /// hold them until the interrupt, then remove the backing files.
    Bridge { names: Vec<String>, sizes: Vec<usize> },
    /// Only remove the backing files of these names.
    CleanUp { names: Vec<String> },
}

/// Why an input is refused before any file is touched.
#[derive(Debug)]
pub enum ConfigError {
    /// There is not one size for each name.
    CountMismatch { maps: usize, sizes: usize },
    /// No name was given.
    NoMaps,
    /// A mapping of this name was asked with size zero.
    ZeroSize { name: String },
    /// This name was given more than once.
    DuplicateName { name: String },
}

/// Whether position `i` of a bridge request is at fault: its size is zero,
/// or its name already occurs before it.
pub open spec fn offends(names: Seq<Seq<char>>, sizes: Seq<usize>, i: int) -> bool {
    sizes[i] == 0 || names.subrange(0, i).contains(names[i])
}

/// Some position of the request is at fault.
pub open spec fn has_offence(names: Seq<Seq<char>>, sizes: Seq<usize>) -> bool {
    exists|i: int| 0 <= i < names.len() && #[trigger] offends(names, sizes, i)
}

/// `k` is the first position at fault.
pub open spec fn first_offence(names: Seq<Seq<char>>, sizes: Seq<usize>, k: int) -> bool {
    &&& 0 <= k < names.len()
    &&& offends(names, sizes, k)
    &&& forall|j: int| 0 <= j < k ==> !#[trigger] offends(names, sizes, j)
}

/// The characters of each name.
pub open spec fn names_view(names: Seq<String>) -> Seq<Seq<char>> {
    names.map_values(|s: String| s@)
}

/// Whether `e` is the error for the first position at fault, `k`.
pub open spec fn offence_error(
    names: Seq<Seq<char>>,
    sizes: Seq<usize>,
    k: int,
    e: ConfigError,
) -> bool {
    if sizes[k] == 0 {
        e matches ConfigError::ZeroSize { name } && name@ == names[k]
    } else {
        e matches ConfigError::DuplicateName { name } && name@ == names[k]
    }
}

/// Whether `names[i]` occurs among the first `i` names.
fn seen_before(names: &Vec<String>, i: usize) -> (r: bool)
    requires
        i < names.len(),
    ensures
        r == names_view(names@).subrange(0, i as int).contains(names@[i as int]@),
{
    let ghost v = names_view(names@);
    let mut j: usize = 0;
    while j < i
        invariant
            i < names.len(),
            j <= i,
            v == names_view(names@),
            forall|m: int| 0 <= m < j ==> v[m] != v[i as int],
        decreases i - j,
    {
        if names[j] == names[i] {
            assert(v.subrange(0, i as int)[j as int] == v[i as int]);
            return true;
        }
        j += 1;
    }
    proof {
        if v.subrange(0, i as int).contains(v[i as int]) {
            let m = choose|m: int| 0 <= m < i && v.subrange(0, i as int)[m] == v[i as int];
            assert(v[m] == v[i as int]);
        }
    }
    false
}

/// Checks the input of a session. Without `clean_up`, there must be one size
/// for each name; in both modes at least one name. A bridge request is then
/// checked position by position, and the first position whose size is zero
/// or whose name was given before is refused.
pub fn validate(maps: Vec<String>, sizes: Vec<usize>, clean_up: bool) -> (r: Result<
    Command,
    ConfigError,
>)
    ensures
        (!clean_up && maps.len() != sizes.len()) <==> (r matches Err(
            ConfigError::CountMismatch { maps: m, sizes: s },
        ) && m == maps.len() && s == sizes.len()),
        (clean_up || maps.len() == sizes.len()) ==> (maps.len() == 0 <==> r matches Err(
            ConfigError::NoMaps,
        )),
        clean_up && maps.len() > 0 ==> (r matches Ok(Command::CleanUp { names })
            && names@ == maps@),
        !clean_up && maps.len() == sizes.len() && maps.len() > 0 ==> {
            let nv = names_view(maps@);
            &&& has_offence(nv, sizes@) <==> (r matches Err(ConfigError::ZeroSize { .. })
                || r matches Err(ConfigError::DuplicateName { .. }))
            &&& forall|k: int| #[trigger]
                first_offence(nv, sizes@, k) ==> offence_error(nv, sizes@, k, r->Err_0)
            &&& !has_offence(nv, sizes@) ==> (r matches Ok(Command::Bridge { names, sizes: s })
                && names@ == maps@ && s@ == sizes@)
        },
{
    if !clean_up && maps.len() != sizes.len() {
        return Err(ConfigError::CountMismatch { maps: maps.len(), sizes: sizes.len() });
    }
    if maps.len() == 0 {
        return Err(ConfigError::NoMaps);
    }
    if clean_up {
        return Ok(Command::CleanUp { names: maps });
    }
    let ghost nv = names_view(maps@);
    let mut i: usize = 0;
    while i < maps.len()
        invariant
            !clean_up,
            maps.len() == sizes.len(),
            nv == names_view(maps@),
            i <= maps.len(),
            forall|j: int| 0 <= j < i ==> !#[trigger] offends(nv, sizes@, j),
        decreases maps.len() - i,
    {
        if sizes[i] == 0 {
            assert(offends(nv, sizes@, i as int));
            return Err(ConfigError::ZeroSize { name: maps[i].clone() });
        }
        if seen_before(&maps, i) {
            assert(offends(nv, sizes@, i as int));
            return Err(ConfigError::DuplicateName { name: maps[i].clone() });
        }
        i += 1;
    }
    Ok(Command::Bridge { names: maps, sizes })
}

} // verus!
