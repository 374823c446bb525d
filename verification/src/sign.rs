//! Content snapshots of a working directory: a mapping from relative
//! file path to a content hash, and the difference of a directory's
//! current contents against a prior snapshot.
//!
//! The directory walk itself is I/O and lives outside this crate; the
//! callers hand in each regular file's relative path and bytes, in
//! walk order. Hashing is a whole-file digest, used only to detect
//! accidental changes, not as a security boundary.

use vstd::prelude::*;
use base64ct::Base64;
use base64ct::Encoding;
use sha1::Digest;
use sha1::Sha1;

verus! {

/// One regular file of the working directory: its path relative to
/// the directory root, and its full contents.
pub struct FileEntry {
    pub path: String,
    pub data: Vec<u8>,
}

/// The SHA-1 digest of a byte sequence; the result depends on the
/// bytes alone.
pub uninterp spec fn sha1_of(data: Seq<u8>) -> Seq<u8>;

/// The padded standard Base64 encoding of a byte sequence; the result
/// depends on the bytes alone.
pub uninterp spec fn base64_of(data: Seq<u8>) -> Seq<char>;

/// The content hash stored in snapshots: the Base64 rendering of the
/// SHA-1 digest of the file's bytes.
pub open spec fn file_hash(data: Seq<u8>) -> Seq<char> {
    base64_of(sha1_of(data))
}

/// Relies on `sha1::Sha1` through `Digest::digest`: the 20-byte SHA-1
/// digest of the given bytes.
#[verifier::external_body]
fn sha1_digest(data: &Vec<u8>) -> (r: Vec<u8>)
    ensures
        r@ == sha1_of(data@),
        r@.len() == 20,
{
    Sha1::digest(data.as_slice()).to_vec()
}

/// Relies on `base64ct::Base64::encode_string`: the padded standard
/// Base64 encoding of the given bytes.
#[verifier::external_body]
fn base64_encode(data: &Vec<u8>) -> (r: String)
    ensures
        r@ == base64_of(data@),
{
    Base64::encode_string(data.as_slice())
}

/// The content hash of one file's bytes.
pub fn hash_content(data: &Vec<u8>) -> (r: String)
    ensures
        r@ == file_hash(data@),
{
    let digest = sha1_digest(data);
    base64_encode(&digest)
}

/// A snapshot: path-to-hash entries in the order the walk produced
/// them. A later entry for the same path supersedes an earlier one,
/// as `as_map` spells out.
pub struct Snapshot {
    pub entries: Vec<(String, String)>,
}

/// The mapping that a sequence of path-to-hash entries denotes: each
/// entry inserted in order, so the last entry for a path wins.
pub open spec fn entries_map(es: Seq<(String, String)>) -> Map<Seq<char>, Seq<char>>
    decreases es.len(),
{
    if es.len() == 0 {
        Map::empty()
    } else {
        entries_map(es.drop_last()).insert(es.last().0@, es.last().1@)
    }
}

/// The mapping from file path to content hash that a walk denotes.
pub open spec fn sig_map(files: Seq<FileEntry>) -> Map<Seq<char>, Seq<char>>
    decreases files.len(),
{
    if files.len() == 0 {
        Map::empty()
    } else {
        sig_map(files.drop_last()).insert(files.last().path@, file_hash(files.last().data@))
    }
}

impl Snapshot {
    /// The mapping this snapshot denotes.
    pub open spec fn as_map(self) -> Map<Seq<char>, Seq<char>> {
        entries_map(self.entries@)
    }

    /// The hash recorded for `path`, or `None` if the snapshot has no
    /// entry for it.
    pub fn lookup(&self, path: &String) -> (r: Option<&String>)
        ensures
            match r {
                Some(h) => self.as_map().contains_key(path@) && self.as_map()[path@] == h@,
                None => !self.as_map().contains_key(path@),
            },
    {
        let mut best: Option<usize> = None;
        let mut i: usize = 0;
        proof {
            assert(self.entries@.take(0) =~= Seq::<(String, String)>::empty());
        }
        while i < self.entries.len()
            invariant
                i <= self.entries@.len(),
                match best {
                    Some(j) => {
                        &&& j < i
                        &&& self.entries@[j as int].0@ == path@
                        &&& entries_map(self.entries@.take(i as int)).contains_key(path@)
                        &&& entries_map(self.entries@.take(i as int))[path@]
                            == self.entries@[j as int].1@
                    },
                    None => !entries_map(self.entries@.take(i as int)).contains_key(path@),
                },
            decreases self.entries@.len() - i,
        {
            proof {
                assert(self.entries@.take(i + 1).drop_last() =~= self.entries@.take(i as int));
                assert(self.entries@.take(i + 1).last() == self.entries@[i as int]);
            }
            if self.entries[i].0.eq(path) {
                best = Some(i);
            }
            i = i + 1;
        }
        proof {
            assert(self.entries@.take(self.entries@.len() as int) =~= self.entries@);
        }
        match best {
            Some(j) => Some(&self.entries[j].1),
            None => None,
        }
    }
}

/// An empty snapshot: it records no path at all, so every file of a
/// non-empty directory shows up as a difference against it.
pub fn empty_signatures() -> (r: Snapshot)
    ensures
        r.as_map() == Map::<Seq<char>, Seq<char>>::empty(),
        r.entries@.len() == 0,
{
    Snapshot { entries: Vec::new() }
}

/// Produces the snapshot of a walked directory: every file's path
/// mapped to the hash of its contents.
pub fn compute_signatures(files: &Vec<FileEntry>) -> (r: Snapshot)
    ensures
        r.as_map() == sig_map(files@),
        r.entries@.len() == files@.len(),
        forall|i: int|
            0 <= i < files@.len() ==> (#[trigger] r.entries@[i]).0@ == files@[i].path@
                && r.entries@[i].1@ == file_hash(files@[i].data@),
{
    let mut entries: Vec<(String, String)> = Vec::new();
    let mut i: usize = 0;
    while i < files.len()
        invariant
            i <= files@.len(),
            entries@.len() == i,
            entries_map(entries@) == sig_map(files@.take(i as int)),
            forall|k: int|
                0 <= k < i ==> (#[trigger] entries@[k]).0@ == files@[k].path@
                    && entries@[k].1@ == file_hash(files@[k].data@),
        decreases files@.len() - i,
    {
        let hash = hash_content(&files[i].data);
        let path = files[i].path.clone();
        let ghost prev = entries@;
        entries.push((path, hash));
        i = i + 1;
        proof {
            assert(entries@.drop_last() =~= prev);
            assert(entries_map(entries@) == entries_map(prev).insert(
                files@[i - 1].path@,
                file_hash(files@[i - 1].data@),
            ));
            let tfiles = files@.take(i as int);
            assert(tfiles.drop_last() =~= files@.take(i - 1));
            assert(tfiles.last() == files@[i - 1]);
            assert(sig_map(tfiles) == sig_map(files@.take(i - 1)).insert(
                files@[i - 1].path@,
                file_hash(files@[i - 1].data@),
            ));
        }
    }
    proof {
        assert(files@.take(files@.len() as int) =~= files@);
    }
    Snapshot { entries }
}

/// Whether a file differs from what the snapshot recorded: its path is
/// absent, or present with another hash.
pub open spec fn differs(snap: Map<Seq<char>, Seq<char>>, file: FileEntry) -> bool {
    !snap.contains_key(file.path@) || snap[file.path@] != file_hash(file.data@)
}

/// The paths of the walked files that differ from the snapshot, in
/// walk order. Only the current tree is visited: a path recorded in
/// the snapshot but no longer on disk is not surfaced.
pub open spec fn diff_paths(files: Seq<FileEntry>, snap: Map<Seq<char>, Seq<char>>) -> Seq<
    Seq<char>,
>
    decreases files.len(),
{
    if files.len() == 0 {
        Seq::empty()
    } else {
        let rest = diff_paths(files.drop_last(), snap);
        if differs(snap, files.last()) {
            rest.push(files.last().path@)
        } else {
            rest
        }
    }
}

/// Produces the list of paths whose current contents differ from the
/// given snapshot: added files and files whose hash changed. Files
/// deleted since the snapshot are not reported.
pub fn find_signature_differences(files: &Vec<FileEntry>, snapshot: &Snapshot) -> (r: Vec<String>)
    ensures
        r@.map_values(|p: String| p@) == diff_paths(files@, snapshot.as_map()),
{
    let mut out: Vec<String> = Vec::new();
    let mut i: usize = 0;
    while i < files.len()
        invariant
            i <= files@.len(),
            out@.map_values(|p: String| p@) == diff_paths(
                files@.take(i as int),
                snapshot.as_map(),
            ),
        decreases files@.len() - i,
    {
        proof {
            let tfiles = files@.take(i + 1);
            assert(tfiles.drop_last() =~= files@.take(i as int));
            assert(tfiles.last() == files@[i as int]);
        }
        let changed: bool = match snapshot.lookup(&files[i].path) {
            Some(recorded) => {
                let hash = hash_content(&files[i].data);
                !recorded.eq(&hash)
            },
            None => true,
        };
        proof {
            assert(changed == differs(snapshot.as_map(), files@[i as int]));
        }
        if changed {
            let ghost prev = out@;
            out.push(files[i].path.clone());
            proof {
                assert(out@.map_values(|p: String| p@) =~= prev.map_values(|p: String| p@).push(
                    files@[i as int].path@,
                ));
            }
        }
        i = i + 1;
    }
    proof {
        assert(files@.take(files@.len() as int) =~= files@);
    }
    out
}

/// In a walk with pairwise distinct paths, the snapshot records each
/// file's own hash under its path.
proof fn lemma_sig_map_own_hash(files: Seq<FileEntry>, i: int)
    requires
        forall|a: int, b: int|
            0 <= a < b < files.len() ==> (#[trigger] files[a]).path@ != (#[trigger] files[b]).path@,
        0 <= i < files.len(),
    ensures
        sig_map(files).contains_key(files[i].path@),
        sig_map(files)[files[i].path@] == file_hash(files[i].data@),
    decreases files.len(),
{
    if i == files.len() - 1 {
        // the final insert is this file's own entry
    } else {
        lemma_sig_map_own_hash(files.drop_last(), i);
        assert(files.drop_last()[i] == files[i]);
        assert(files.last().path@ != files[i].path@);
    }
}

/// A directory diffed against its own snapshot shows no differences,
/// for any walk whose paths are pairwise distinct.
pub proof fn lemma_snapshot_round_trip(files: Seq<FileEntry>)
    requires
        forall|a: int, b: int|
            0 <= a < b < files.len() ==> (#[trigger] files[a]).path@ != (#[trigger] files[b]).path@,
    ensures
        diff_paths(files, sig_map(files)) == Seq::<Seq<char>>::empty(),
{
    let snap = sig_map(files);
    assert forall|i: int| 0 <= i < files.len() implies snap.contains_key(
        (#[trigger] files[i]).path@,
    ) && snap[files[i].path@] == file_hash(files[i].data@) by {
        lemma_sig_map_own_hash(files, i);
    }
    lemma_no_diff_when_recorded(files, snap);
}

/// No file of a walk is reported when the snapshot maps each of the
/// walk's paths to that file's own hash.
proof fn lemma_no_diff_when_recorded(files: Seq<FileEntry>, snap: Map<Seq<char>, Seq<char>>)
    requires
        forall|i: int|
            0 <= i < files.len() ==> snap.contains_key((#[trigger] files[i]).path@)
                && snap[files[i].path@] == file_hash(files[i].data@),
    ensures
        diff_paths(files, snap) == Seq::<Seq<char>>::empty(),
    decreases files.len(),
{
    if files.len() > 0 {
        lemma_no_diff_when_recorded(files.drop_last(), snap);
        assert(files.last() == files[files.len() - 1]);
        assert(!differs(snap, files.last()));
    }
}

/// A file added after the snapshot was taken is reported as exactly
/// the one difference: diffing the walk extended by a fresh path
/// against the old snapshot yields that path and no other.
pub proof fn lemma_diff_reports_added_file(files: Seq<FileEntry>, added: FileEntry)
    requires
        forall|a: int, b: int|
            0 <= a < b < files.len() ==> (#[trigger] files[a]).path@ != (#[trigger] files[b]).path@,
        forall|i: int| 0 <= i < files.len() ==> (#[trigger] files[i]).path@ != added.path@,
    ensures
        diff_paths(files.push(added), sig_map(files)) == seq![added.path@],
{
    let snap = sig_map(files);
    assert forall|i: int| 0 <= i < files.len() implies snap.contains_key(
        (#[trigger] files[i]).path@,
    ) && snap[files[i].path@] == file_hash(files[i].data@) by {
        lemma_sig_map_own_hash(files, i);
    }
    lemma_no_diff_when_recorded(files, snap);
    lemma_sig_map_keys(files);
    assert(!snap.contains_key(added.path@));
    assert(files.push(added).drop_last() =~= files);
    assert(files.push(added).last() == added);
    assert(differs(snap, added));
    assert(diff_paths(files.push(added), snap) =~= seq![added.path@]);
}

/// The empty snapshot shows every file of a non-empty directory as a
/// difference: diffing any walk against it reports every path, in
/// walk order.
pub proof fn lemma_empty_snapshot_differs_everywhere(files: Seq<FileEntry>)
    ensures
        diff_paths(files, Map::<Seq<char>, Seq<char>>::empty()) == files.map_values(
            |f: FileEntry| f.path@,
        ),
    decreases files.len(),
{
    if files.len() == 0 {
        assert(diff_paths(files, Map::<Seq<char>, Seq<char>>::empty()) =~= files.map_values(
            |f: FileEntry| f.path@,
        ));
    } else {
        lemma_empty_snapshot_differs_everywhere(files.drop_last());
        assert(differs(Map::<Seq<char>, Seq<char>>::empty(), files.last()));
        assert(files.map_values(|f: FileEntry| f.path@) =~= files.drop_last().map_values(
            |f: FileEntry| f.path@,
        ).push(files.last().path@));
    }
}

/// Every key of a walk's snapshot is one of the walk's paths.
proof fn lemma_sig_map_keys(files: Seq<FileEntry>)
    ensures
        forall|p: Seq<char>|
            #[trigger] sig_map(files).contains_key(p) ==> exists|i: int|
                0 <= i < files.len() && (#[trigger] files[i]).path@ == p,
    decreases files.len(),
{
    if files.len() > 0 {
        lemma_sig_map_keys(files.drop_last());
        assert forall|p: Seq<char>| #[trigger] sig_map(files).contains_key(p) implies exists|
            i: int,
        | 0 <= i < files.len() && (#[trigger] files[i]).path@ == p by {
            if p == files.last().path@ {
                assert(files[files.len() - 1].path@ == p);
            } else {
                assert(sig_map(files.drop_last()).contains_key(p));
                let i = choose|i: int|
                    0 <= i < files.drop_last().len() && (#[trigger] files.drop_last()[i]).path@
                        == p;
                assert(files[i].path@ == p);
            }
        }
    }
}

} // verus!
