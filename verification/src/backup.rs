//! The backup orchestrator's computing core: given the resolved candidate
//! entries with their contents (or their absence), it encrypts every
//! present file, names its blob after the final path segment, skips the
//! missing ones, and accounts for progress.  The caller performs the
//! uploads and hands the package manifest in as plain bytes.

use vstd::prelude::*;
use vstd::string::StringExecFns;
use crate::crypto::{aes_enc, encrypt_data, CryptoError, IV_LEN, KEY_LEN, MAX_DATA_LEN};
use crate::progress::BackupState;
use crate::text::{chars_range_to_string, to_char_vec};

verus! {

/// The characters after the last slash of a path: the name its uploaded
/// blob carries.
pub open spec fn spec_blob_name(p: Seq<char>) -> Seq<char>
    decreases p.len(),
{
    if p.len() == 0 {
        p
    } else if p[p.len() - 1] == '/' {
        Seq::empty()
    } else {
        spec_blob_name(p.drop_last()).push(p[p.len() - 1])
    }
}

proof fn lemma_blob_name_at(p: Seq<char>, k: int)
    requires
        0 <= k <= p.len(),
        forall|j: int| k <= j < p.len() ==> p[j] != '/',
        k == 0 || p[k - 1] == '/',
    ensures
        spec_blob_name(p) == p.subrange(k, p.len() as int),
    decreases p.len(),
{
    if k == p.len() {
        if k == 0 {
            assert(p.subrange(0, 0) =~= p);
        } else {
            assert(p.subrange(k, p.len() as int) =~= Seq::<char>::empty());
        }
    } else {
        lemma_blob_name_at(p.drop_last(), k);
        assert(p.drop_last().subrange(k, p.drop_last().len() as int) =~= p.subrange(
            k,
            p.len() - 1,
        ));
        assert(p.subrange(k, p.len() - 1).push(p[p.len() - 1]) =~= p.subrange(k, p.len() as int));
    }
}

/// The final path segment of `path`, as the blob name to upload under.
pub fn blob_name(path: &str) -> (r: String)
    ensures
        r@ == spec_blob_name(path@),
{
    let chars = to_char_vec(path);
    let n: usize = chars.len();
    let mut k: usize = n;
    while k > 0 && chars[k - 1] != '/'
        invariant
            k <= n,
            n == chars@.len(),
            chars@ == path@,
            forall|j: int| k <= j < n ==> chars@[j] != '/',
        decreases k,
    {
        k = k - 1;
    }
    proof {
        lemma_blob_name_at(path@, k as int);
    }
    chars_range_to_string(&chars, k, n)
}

/// One resolved candidate: its path, and its contents when the file
/// existed at read time.
pub struct FileEntry {
    pub path: String,
    pub data: Option<Vec<u8>>,
}

/// One encrypted blob ready to upload, keyed by its name.
pub struct UploadItem {
    pub name: String,
    pub blob: Vec<u8>,
}

/// Everything one backup pass produces: the blobs to upload in order,
/// the paths that were skipped as missing, and the final progress state.
pub struct BackupOutput {
    pub uploads: Vec<UploadItem>,
    pub skipped: Vec<String>,
    pub state: BackupState,
}

/// The bytes an entry contributes to the pass: its size, or 0 when the
/// file was missing.
pub open spec fn entry_size(e: FileEntry) -> int {
    if e.data is Some {
        e.data->Some_0@.len() as int
    } else {
        0
    }
}

/// The total bytes of the present entries.
pub open spec fn spec_total_bytes(entries: Seq<FileEntry>) -> int
    decreases entries.len(),
{
    if entries.len() == 0 {
        0
    } else {
        entry_size(entries[0]) + spec_total_bytes(entries.skip(1))
    }
}

/// How many entries are present.
pub open spec fn spec_present_count(entries: Seq<FileEntry>) -> int
    decreases entries.len(),
{
    if entries.len() == 0 {
        0
    } else if entries[0].data is Some {
        1 + spec_present_count(entries.skip(1))
    } else {
        spec_present_count(entries.skip(1))
    }
}

/// The (name, ciphertext) pairs a pass uploads: one per present entry,
/// in entry order, named after the final path segment.
pub open spec fn spec_uploads(entries: Seq<FileEntry>, key: Seq<u8>, iv: Seq<u8>) -> Seq<
    (Seq<char>, Seq<u8>),
>
    decreases entries.len(),
{
    if entries.len() == 0 {
        Seq::empty()
    } else if entries[0].data is Some {
        seq![(spec_blob_name(entries[0].path@), aes_enc(entries[0].data->Some_0@, key, iv))]
            + spec_uploads(entries.skip(1), key, iv)
    } else {
        spec_uploads(entries.skip(1), key, iv)
    }
}

/// The paths of the missing entries, in entry order.
pub open spec fn spec_skipped(entries: Seq<FileEntry>) -> Seq<Seq<char>>
    decreases entries.len(),
{
    if entries.len() == 0 {
        Seq::empty()
    } else if entries[0].data is Some {
        spec_skipped(entries.skip(1))
    } else {
        seq![entries[0].path@] + spec_skipped(entries.skip(1))
    }
}

pub proof fn lemma_total_bytes_nonneg(entries: Seq<FileEntry>)
    ensures
        spec_total_bytes(entries) >= 0,
    decreases entries.len(),
{
    if entries.len() > 0 {
        lemma_total_bytes_nonneg(entries.skip(1));
    }
}

pub proof fn lemma_present_count_bounds(entries: Seq<FileEntry>)
    ensures
        0 <= spec_present_count(entries) <= entries.len(),
    decreases entries.len(),
{
    if entries.len() > 0 {
        lemma_present_count_bounds(entries.skip(1));
    }
}

/// Runs the computing part of one backup pass over the resolved entries.
///
/// Fails exactly when the key or IV has the wrong length.  Otherwise every
/// present entry yields, in order, one upload named after its final path
/// segment and carrying its encrypted contents; every missing entry is
/// skipped; and the final progress state counts every entry as planned,
/// every present one as completed, and exactly the present bytes as both
/// total and processed.
pub fn run_backup(entries: &Vec<FileEntry>, key: &[u8], iv: &[u8]) -> (r: Result<
    BackupOutput,
    CryptoError,
>)
    requires
        forall|i: int|
            0 <= i < entries@.len() && #[trigger] entries@[i].data is Some
                ==> entries@[i].data->Some_0@.len() <= MAX_DATA_LEN,
        spec_total_bytes(entries@) <= u64::MAX,
    ensures
        r is Ok <==> key@.len() == KEY_LEN && iv@.len() == IV_LEN,
        key@.len() != KEY_LEN <==> (r is Err && r->Err_0 == CryptoError::InvalidKeyLength),
        (key@.len() == KEY_LEN && iv@.len() != IV_LEN) <==> (r is Err && r->Err_0
            == CryptoError::InvalidIvLength),
        r is Ok ==> r->Ok_0.uploads@.map_values(|u: UploadItem| (u.name@, u.blob@))
            == spec_uploads(entries@, key@, iv@),
        r is Ok ==> r->Ok_0.skipped@.map_values(|p: String| p@) == spec_skipped(entries@),
        r is Ok ==> r->Ok_0.state.total_files == entries@.len(),
        r is Ok ==> r->Ok_0.state.completed_files == spec_present_count(entries@),
        r is Ok ==> r->Ok_0.state.total_size == spec_total_bytes(entries@),
        r is Ok ==> r->Ok_0.state.processed_size == spec_total_bytes(entries@),
{
    if key.len() != KEY_LEN {
        return Err(CryptoError::InvalidKeyLength);
    }
    if iv.len() != IV_LEN {
        return Err(CryptoError::InvalidIvLength);
    }
    let n: usize = entries.len();
    let mut total: u64 = 0;
    let mut i: usize = 0;
    proof {
        assert(entries@.skip(0) =~= entries@);
    }
    while i < n
        invariant
            i <= n,
            n == entries@.len(),
            spec_total_bytes(entries@) == total + spec_total_bytes(entries@.skip(i as int)),
            spec_total_bytes(entries@) <= u64::MAX,
        decreases n - i,
    {
        proof {
            assert(entries@.skip(i as int)[0] == entries@[i as int]);
            assert(entries@.skip(i as int).skip(1) =~= entries@.skip(i + 1));
            lemma_total_bytes_nonneg(entries@.skip(i + 1));
        }
        let size: u64 = match &entries[i].data {
            Some(d) => d.len() as u64,
            None => 0,
        };
        total = total + size;
        i = i + 1;
    }
    proof {
        assert(entries@.skip(n as int) =~= Seq::<FileEntry>::empty());
    }
    let mut state = BackupState::new(n, total);
    let mut uploads: Vec<UploadItem> = Vec::new();
    let mut skipped: Vec<String> = Vec::new();
    let mut i: usize = 0;
    proof {
        assert(entries@.skip(0) =~= entries@);
        assert(uploads@.map_values(|u: UploadItem| (u.name@, u.blob@)) + spec_uploads(
            entries@,
            key@,
            iv@,
        ) =~= spec_uploads(entries@, key@, iv@));
        assert(skipped@.map_values(|p: String| p@) + spec_skipped(entries@) =~= spec_skipped(
            entries@,
        ));
    }
    while i < n
        invariant
            i <= n,
            n == entries@.len(),
            key@.len() == KEY_LEN,
            iv@.len() == IV_LEN,
            forall|j: int|
                0 <= j < entries@.len() && #[trigger] entries@[j].data is Some
                    ==> entries@[j].data->Some_0@.len() <= MAX_DATA_LEN,
            spec_uploads(entries@, key@, iv@) == uploads@.map_values(
                |u: UploadItem| (u.name@, u.blob@),
            ) + spec_uploads(entries@.skip(i as int), key@, iv@),
            spec_skipped(entries@) == skipped@.map_values(|p: String| p@) + spec_skipped(
                entries@.skip(i as int),
            ),
            spec_present_count(entries@) == state.completed_files + spec_present_count(
                entries@.skip(i as int),
            ),
            spec_total_bytes(entries@) == state.processed_size + spec_total_bytes(
                entries@.skip(i as int),
            ),
            state.total_files == entries@.len(),
            state.total_size == spec_total_bytes(entries@),
        decreases n - i,
    {
        let ghost prev_uploads = uploads@;
        let ghost prev_skipped = skipped@;
        proof {
            assert(entries@.skip(i as int)[0] == entries@[i as int]);
            assert(entries@.skip(i as int).skip(1) =~= entries@.skip(i + 1));
        }
        match &entries[i].data {
            Some(d) => {
                let blob = match encrypt_data(d.as_slice(), key, iv) {
                    Ok(b) => b,
                    Err(e) => {
                        return Err(e);
                    },
                };
                let name = blob_name(entries[i].path.as_str());
                uploads.push(UploadItem { name, blob });
                proof {
                    lemma_present_count_bounds(entries@.skip(i + 1));
                    lemma_present_count_bounds(entries@);
                    lemma_total_bytes_nonneg(entries@.skip(i + 1));
                    assert(prev_uploads.map_values(|u: UploadItem| (u.name@, u.blob@)) + (seq![
                        (
                            spec_blob_name(entries@[i as int].path@),
                            aes_enc(entries@[i as int].data->Some_0@, key@, iv@),
                        ),
                    ] + spec_uploads(entries@.skip(i + 1), key@, iv@)) =~= uploads@.map_values(
                        |u: UploadItem| (u.name@, u.blob@),
                    ) + spec_uploads(entries@.skip(i + 1), key@, iv@));
                }
                state.update_progress(d.len() as u64);
            },
            None => {
                skipped.push(entries[i].path.clone());
                proof {
                    assert(prev_skipped.map_values(|p: String| p@) + (seq![
                        entries@[i as int].path@,
                    ] + spec_skipped(entries@.skip(i + 1))) =~= skipped@.map_values(
                        |p: String| p@,
                    ) + spec_skipped(entries@.skip(i + 1)));
                }
            },
        }
        i = i + 1;
    }
    proof {
        assert(entries@.skip(n as int) =~= Seq::<FileEntry>::empty());
    }
    Ok(BackupOutput { uploads, skipped, state })
}

/// Encrypts the installed-package manifest and names its blob, the one
/// upload a pass makes beyond the candidate files.
pub fn prepare_package_upload(manifest: &[u8], key: &[u8], iv: &[u8]) -> (r: Result<
    UploadItem,
    CryptoError,
>)
    requires
        manifest@.len() <= MAX_DATA_LEN,
    ensures
        r is Ok <==> key@.len() == KEY_LEN && iv@.len() == IV_LEN,
        key@.len() != KEY_LEN <==> (r is Err && r->Err_0 == CryptoError::InvalidKeyLength),
        (key@.len() == KEY_LEN && iv@.len() != IV_LEN) <==> (r is Err && r->Err_0
            == CryptoError::InvalidIvLength),
        r is Ok ==> r->Ok_0.name@ == "installed_packages.txt"@,
        r is Ok ==> r->Ok_0.blob@ == aes_enc(manifest@, key@, iv@),
{
    let blob = encrypt_data(manifest, key, iv)?;
    Ok(UploadItem { name: String::from_str("installed_packages.txt"), blob })
}

} // verus!
