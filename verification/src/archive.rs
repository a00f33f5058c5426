//! Reading the package of an update, a zip archive, and deciding where each
//! of its entries may go.

use crate::text::chars_of;
use vstd::prelude::*;
use vstd::string::*;

verus! {

/// `zip::ZipArchive`, an archive read from `R`. What it holds is known only
/// through `archive_entries`.
#[verifier::external_type_specification]
#[verifier::external_body]
#[verifier::reject_recursive_types(R)]
pub struct ExZipArchive<R>(zip::ZipArchive<R>);

/// `std::io::Cursor`, the reader over bytes in memory that the archive is
/// read from. Nothing is known of what it holds.
#[verifier::external_type_specification]
#[verifier::external_body]
#[verifier::reject_recursive_types(T)]
pub struct ExCursor<T>(std::io::Cursor<T>);

/// A zip archive held in memory.
pub type Archive = zip::ZipArchive<std::io::Cursor<Vec<u8>>>;

/// One entry of an archive: its name, and its content where that can be
/// read in full.
pub type ArchiveEntry = (Seq<char>, Option<Seq<u8>>);

/// The entries of an archive, in the order of its directory. An entry that
/// cannot be opened stands as `None`.
pub uninterp spec fn archive_entries(archive: Archive) -> Seq<Option<ArchiveEntry>>;

/// Whether the entry can be opened and bears the name `name`.
pub open spec fn entry_named(entry: Option<ArchiveEntry>, name: Seq<char>) -> bool {
    match entry {
        Some((found, _)) => found == name,
        None => false,
    }
}

/// Whether the entry can be opened and read in full, and holds `data`.
pub open spec fn entry_holds(entry: Option<ArchiveEntry>, data: Seq<u8>) -> bool {
    match entry {
        Some((_, Some(found))) => found == data,
        _ => false,
    }
}

/// Whether the entry can be opened and read in full.
pub open spec fn entry_readable(entry: Option<ArchiveEntry>) -> bool {
    match entry {
        Some((_, Some(_))) => true,
        _ => false,
    }
}

/// What `zip::ZipArchive::new` makes of `bytes`: the entries of the archive
/// that it read, or `None` where it reported an error.
pub uninterp spec fn zip_opened(bytes: Seq<u8>) -> Option<Seq<Option<ArchiveEntry>>>;

/// Calls `zip::ZipArchive::new` on the bytes. The result is the one that
/// `zip_opened` names: an archive with those entries, or an error, which
/// comes back as its text.
#[verifier::external_body]
pub(crate) fn open_archive(bytes: Vec<u8>) -> (r: Result<Archive, String>)
    ensures
        match r {
            Ok(archive) => zip_opened(bytes@) == Some(archive_entries(archive)),
            Err(_) => zip_opened(bytes@) is None,
        },
{
    match zip::ZipArchive::new(std::io::Cursor::new(bytes)) {
        Ok(archive) => Ok(archive),
        Err(error) => Err(error.to_string()),
    }
}

/// Calls `zip::ZipArchive::len`: the number of entries in the archive's
/// directory.
#[verifier::external_body]
pub(crate) fn archive_len(archive: &Archive) -> (r: usize)
    ensures
        r == archive_entries(*archive).len(),
{
    archive.len()
}

/// Opens the entry at `index` with `zip::ZipArchive::by_index_decrypt` and an
/// empty password, and hands out its name. An encrypted entry is opened only
/// where the empty password passes the entry's check. The archive's entries stay what
/// they are. The name is that of the entry at `index`; an error, which comes
/// back as its text, means that there is no such entry or that it cannot be
/// opened.
#[verifier::external_body]
pub(crate) fn entry_name(archive: &mut Archive, index: usize) -> (r: Result<String, String>)
    ensures
        archive_entries(*final(archive)) == archive_entries(*old(archive)),
        match r {
            Ok(name) => index < archive_entries(*old(archive)).len() && entry_named(
                archive_entries(*old(archive))[index as int],
                name@,
            ),
            Err(_) => index < archive_entries(*old(archive)).len() ==> archive_entries(
                *old(archive),
            )[index as int] is None,
        },
{
    match archive.by_index_decrypt(index, b"") {
        Ok(Ok(file)) => Ok(file.name().to_string()),
        Ok(Err(error)) => Err(error.to_string()),
        Err(error) => Err(error.to_string()),
    }
}

/// Opens the entry at `index` with `zip::ZipArchive::by_index_decrypt` and an
/// empty password, and reads it to its end. The archive's entries stay what
/// they are. The bytes are the content of the entry at `index`; an error,
/// which comes back as its text, means that there is no such entry, that it
/// cannot be opened, or that its content cannot be read in full.
#[verifier::external_body]
pub(crate) fn entry_data(archive: &mut Archive, index: usize) -> (r: Result<Vec<u8>, String>)
    ensures
        archive_entries(*final(archive)) == archive_entries(*old(archive)),
        match r {
            Ok(data) => index < archive_entries(*old(archive)).len() && entry_holds(
                archive_entries(*old(archive))[index as int],
                data@,
            ),
            Err(_) => index < archive_entries(*old(archive)).len() ==> !entry_readable(
                archive_entries(*old(archive))[index as int],
            ),
        },
{
    let mut data = Vec::new();
    match archive.by_index_decrypt(index, b"") {
        Ok(Ok(mut file)) => match std::io::Read::read_to_end(&mut file, &mut data) {
            Ok(_) => Ok(data),
            Err(error) => Err(error.to_string()),
        },
        Ok(Err(error)) => Err(error.to_string()),
        Err(error) => Err(error.to_string()),
    }
}

/// The components of a path: the stretches between its slashes. A path
/// without a slash is one component; two slashes in a row, or a slash at
/// either end, give an empty one.
pub open spec fn split_path(name: Seq<char>) -> Seq<Seq<char>>
    decreases name.len(),
{
    if name.len() == 0 {
        seq![Seq::<char>::empty()]
    } else {
        let head = split_path(name.drop_last());
        if name.last() == '/' {
            head.push(Seq::<char>::empty())
        } else {
            head.update(head.len() - 1, head.last().push(name.last()))
        }
    }
}

/// Whether a component is `..`, which leads one folder up.
pub open spec fn leads_up(component: Seq<char>) -> bool {
    component.len() == 2 && component[0] == '.' && component[1] == '.'
}

/// Whether a component leads nowhere: it is empty, or it is `.`.
pub open spec fn leads_nowhere(component: Seq<char>) -> bool {
    component.len() == 0 || (component.len() == 1 && component[0] == '.')
}

/// How deep below the folder it starts in a walk is after one more
/// component. `None` means that the walk has left that folder, and there is
/// no way back in.
pub open spec fn walked(depth: Option<nat>, component: Seq<char>) -> Option<nat> {
    match depth {
        None => None,
        Some(d) => if leads_up(component) {
            if d == 0 {
                None
            } else {
                Some((d - 1) as nat)
            }
        } else if leads_nowhere(component) {
            Some(d)
        } else {
            Some(d + 1)
        },
    }
}

/// How deep below the folder it starts in a walk along `components` ends, or
/// `None` where it leaves that folder on the way.
pub open spec fn depth_after(components: Seq<Seq<char>>) -> Option<nat>
    decreases components.len(),
{
    if components.len() == 0 {
        Some(0)
    } else {
        walked(depth_after(components.drop_last()), components.last())
    }
}

/// Whether an entry of this name stays within the folder that the archive is
/// unpacked into: the name holds no NUL, is no absolute path, and at no
/// point leads above the folder it starts in. So `foo/../bar` is enclosed,
/// and `foo/../../bar` is not.
///
/// The slash is the only separator. A backslash and a drive prefix such as
/// `C:` are ordinary characters of a component, as they are in the paths of
/// the console that the archive is unpacked on.
pub open spec fn enclosed(name: Seq<char>) -> bool {
    &&& !name.contains('\0')
    &&& !(name.len() > 0 && name[0] == '/')
    &&& depth_after(split_path(name)) is Some
}

/// Whether a component is made of dots alone.
pub open spec fn all_dots(component: Seq<char>) -> bool {
    forall|k: int| 0 <= k < component.len() ==> #[trigger] component[k] == '.'
}

/// A path has at least one component.
pub proof fn lemma_split_path_nonempty(name: Seq<char>)
    ensures
        split_path(name).len() >= 1,
    decreases name.len(),
{
    if name.len() > 0 {
        lemma_split_path_nonempty(name.drop_last());
    }
}

/// A walk that has left its folder at some point stays outside: no later
/// component brings it back.
pub proof fn lemma_walk_never_returns(components: Seq<Seq<char>>, n: int)
    requires
        0 <= n <= components.len(),
        depth_after(components.subrange(0, n)) is None,
    ensures
        depth_after(components) is None,
    decreases components.len(),
{
    if n == components.len() {
        assert(components.subrange(0, n) =~= components);
    } else {
        assert(components.drop_last().subrange(0, n) =~= components.subrange(0, n));
        lemma_walk_never_returns(components.drop_last(), n);
    }
}

/// Whether an entry of this name stays within the folder that the archive is
/// unpacked into. The slash is the only separator: backslashes and drive
/// prefixes count as ordinary characters.
pub fn is_enclosed(name: &str) -> (r: bool)
    ensures
        r == enclosed(name@),
{
    let chars = chars_of(name);
    let n: usize = chars.len();
    if n > 0 && chars[0] == '/' {
        return false;
    }
    let mut depth: usize = 0;
    let mut outside = false;
    let mut has_nul = false;
    let mut length: usize = 0;
    let mut dots = true;
    let mut i: usize = 0;
    proof {
        assert(name@.subrange(0, 0) =~= Seq::<char>::empty());
        assert(split_path(name@.subrange(0, 0)).drop_last() =~= Seq::<Seq<char>>::empty());
    }
    while i < n
        invariant
            chars@ == name@,
            n == name@.len(),
            i <= n,
            depth <= i,
            length <= i,
            split_path(name@.subrange(0, i as int)).len() >= 1,
            length == split_path(name@.subrange(0, i as int)).last().len(),
            dots == all_dots(split_path(name@.subrange(0, i as int)).last()),
            depth_after(split_path(name@.subrange(0, i as int)).drop_last()) == (if outside {
                None::<nat>
            } else {
                Some(depth as nat)
            }),
            has_nul == name@.subrange(0, i as int).contains('\0'),
        decreases n - i,
    {
        let c = chars[i];
        let ghost before = name@.subrange(0, i as int);
        let ghost after = name@.subrange(0, i + 1);
        let ghost parts = split_path(before);
        proof {
            assert(after.drop_last() =~= before);
            assert(after.last() == c);
            assert(after.contains('\0') == (before.contains('\0') || c == '\0')) by {
                if before.contains('\0') {
                    let k = choose|k: int| 0 <= k < before.len() && before[k] == '\0';
                    assert(after[k] == '\0');
                }
                if c == '\0' {
                    assert(after[i as int] == '\0');
                }
                if after.contains('\0') {
                    let k = choose|k: int| 0 <= k < after.len() && after[k] == '\0';
                    if k < i {
                        assert(before[k] == '\0');
                    }
                }
            }
        }
        if c == '\0' {
            has_nul = true;
        }
        if c == '/' {
            proof {
                assert(split_path(after) == parts.push(Seq::<char>::empty()));
                assert(split_path(after).drop_last() =~= parts);
                assert(parts.drop_last().push(parts.last()) =~= parts);
            }
            if !outside {
                if dots && length == 2 {
                    if depth == 0 {
                        outside = true;
                    } else {
                        depth -= 1;
                    }
                } else if !(length == 0 || (dots && length == 1)) {
                    depth += 1;
                }
            }
            length = 0;
            dots = true;
        } else {
            proof {
                let grown = parts.last().push(c);
                assert(split_path(after) == parts.update(parts.len() - 1, grown));
                assert(split_path(after).drop_last() =~= parts.drop_last());
                assert(split_path(after).last() == grown);
                assert(all_dots(grown) == (all_dots(parts.last()) && c == '.')) by {
                    assert(grown[length as int] == c);
                    assert forall|k: int| 0 <= k < length implies grown[k] == parts.last()[k] by {}
                    if all_dots(parts.last()) && c == '.' {
                        assert forall|k: int| 0 <= k < grown.len() implies #[trigger] grown[k]
                            == '.' by {
                            if k < length {
                                assert(grown[k] == parts.last()[k]);
                            }
                        }
                    }
                    if all_dots(grown) {
                        assert forall|k: int| 0 <= k < parts.last().len() implies
                            #[trigger] parts.last()[k] == '.' by {
                            assert(grown[k] == '.');
                        }
                    }
                }
            }
            length += 1;
            dots = dots && c == '.';
        }
        i += 1;
    }
    proof {
        assert(name@.subrange(0, n as int) =~= name@);
        let parts = split_path(name@);
        assert(parts.drop_last().push(parts.last()) =~= parts);
    }
    if !outside {
        if dots && length == 2 {
            if depth == 0 {
                outside = true;
            }
        }
    }
    !has_nul && !outside
}

/// The walk along an enclosed name is inside the folder it starts in after
/// each of its components, not only at its end.
pub proof fn lemma_enclosed_stays_inside(name: Seq<char>, n: int)
    requires
        enclosed(name),
        0 <= n <= split_path(name).len(),
    ensures
        depth_after(split_path(name).subrange(0, n)) is Some,
{
    if depth_after(split_path(name).subrange(0, n)) is None {
        lemma_walk_never_returns(split_path(name), n);
    }
}

/// A name that begins by leading up, as `../../etc/passwd` does, is not
/// enclosed, whatever follows.
pub proof fn lemma_leading_parent_not_enclosed(name: Seq<char>)
    requires
        leads_up(split_path(name)[0]),
    ensures
        !enclosed(name),
{
    lemma_split_path_nonempty(name);
    let first = split_path(name).subrange(0, 1);
    assert(first.drop_last() =~= Seq::<Seq<char>>::empty());
    assert(first.last() == split_path(name)[0]);
    assert(depth_after(first.drop_last()) == Some(0nat));
    lemma_walk_never_returns(split_path(name), 1);
}

} // verus!
