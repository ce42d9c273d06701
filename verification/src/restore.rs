//! The restore orchestrator's computing core: the mirror of the backup
//! pass.  Given the downloaded blobs, it decrypts each one, maps its name
//! back to the candidate path whose final segment produced it, continues
//! past blobs that fail to decrypt, and surfaces their count.  The caller
//! downloads the blobs and writes the restored files.

use vstd::prelude::*;
use crate::backup::{blob_name, spec_blob_name};
use crate::crypto::{aes_dec, decrypt_data, CryptoError, IV_LEN, KEY_LEN, MAX_DATA_LEN};
use crate::text::str_eq;

verus! {

/// One downloaded blob, keyed by the name it was uploaded under.
pub struct DownloadItem {
    pub name: String,
    pub blob: Vec<u8>,
}

/// One decrypted file ready to write back.
pub struct RestoredFile {
    pub path: String,
    pub data: Vec<u8>,
}

/// Everything one restore pass produces: the files to write in download
/// order, and how many blobs failed to decrypt.
pub struct RestoreOutput {
    pub files: Vec<RestoredFile>,
    pub failures: usize,
}

/// The local path a blob name restores to: the first candidate path whose
/// final segment is the name, or the bare name when none matches.
pub open spec fn spec_restore_path(name: Seq<char>, candidates: Seq<Seq<char>>) -> Seq<char>
    decreases candidates.len(),
{
    if candidates.len() == 0 {
        name
    } else if spec_blob_name(candidates[0]) == name {
        candidates[0]
    } else {
        spec_restore_path(name, candidates.skip(1))
    }
}

/// The (path, plaintext) pairs a restore pass writes: one per blob that
/// decrypts, in download order.
pub open spec fn spec_restored(
    blobs: Seq<(Seq<char>, Seq<u8>)>,
    candidates: Seq<Seq<char>>,
    key: Seq<u8>,
    iv: Seq<u8>,
) -> Seq<(Seq<char>, Seq<u8>)>
    decreases blobs.len(),
{
    if blobs.len() == 0 {
        Seq::empty()
    } else if aes_dec(blobs[0].1, key, iv) is Some {
        seq![(spec_restore_path(blobs[0].0, candidates), aes_dec(blobs[0].1, key, iv)->Some_0)]
            + spec_restored(blobs.skip(1), candidates, key, iv)
    } else {
        spec_restored(blobs.skip(1), candidates, key, iv)
    }
}

/// How many blobs do not decrypt under the key and IV.
pub open spec fn spec_restore_failures(
    blobs: Seq<(Seq<char>, Seq<u8>)>,
    key: Seq<u8>,
    iv: Seq<u8>,
) -> int
    decreases blobs.len(),
{
    if blobs.len() == 0 {
        0
    } else if aes_dec(blobs[0].1, key, iv) is Some {
        spec_restore_failures(blobs.skip(1), key, iv)
    } else {
        1 + spec_restore_failures(blobs.skip(1), key, iv)
    }
}

/// Finds the candidate path a blob name restores to.
pub fn resolve_restore_path(name: &String, candidates: &Vec<String>) -> (r: String)
    ensures
        r@ == spec_restore_path(name@, candidates@.map_values(|p: String| p@)),
{
    let ghost cvs = candidates@.map_values(|p: String| p@);
    let mut j: usize = 0;
    proof {
        assert(cvs.skip(0) =~= cvs);
    }
    while j < candidates.len()
        invariant
            j <= candidates@.len(),
            cvs == candidates@.map_values(|p: String| p@),
            spec_restore_path(name@, cvs) == spec_restore_path(name@, cvs.skip(j as int)),
        decreases candidates@.len() - j,
    {
        proof {
            assert(cvs.skip(j as int)[0] == cvs[j as int]);
            assert(cvs.skip(j as int).skip(1) =~= cvs.skip(j + 1));
        }
        let candidate_name = blob_name(candidates[j].as_str());
        if str_eq(candidate_name.as_str(), name.as_str()) {
            return candidates[j].clone();
        }
        j = j + 1;
    }
    proof {
        assert(cvs.skip(cvs.len() as int) =~= Seq::<Seq<char>>::empty());
    }
    name.clone()
}

/// Runs the computing part of one restore pass over the downloaded blobs.
///
/// Fails exactly when the key or IV has the wrong length.  Otherwise every
/// blob that decrypts yields, in order, one file at the candidate path its
/// name maps back to, and every blob that does not is counted and passed
/// over rather than aborting the pass.
pub fn run_restore(
    downloads: &Vec<DownloadItem>,
    candidates: &Vec<String>,
    key: &[u8],
    iv: &[u8],
) -> (r: Result<RestoreOutput, CryptoError>)
    requires
        forall|i: int|
            0 <= i < downloads@.len() ==> #[trigger] downloads@[i].blob@.len() <= MAX_DATA_LEN,
    ensures
        r is Ok <==> key@.len() == KEY_LEN && iv@.len() == IV_LEN,
        key@.len() != KEY_LEN <==> (r is Err && r->Err_0 == CryptoError::InvalidKeyLength),
        (key@.len() == KEY_LEN && iv@.len() != IV_LEN) <==> (r is Err && r->Err_0
            == CryptoError::InvalidIvLength),
        r is Ok ==> r->Ok_0.files@.map_values(|f: RestoredFile| (f.path@, f.data@))
            == spec_restored(
            downloads@.map_values(|d: DownloadItem| (d.name@, d.blob@)),
            candidates@.map_values(|p: String| p@),
            key@,
            iv@,
        ),
        r is Ok ==> r->Ok_0.failures == spec_restore_failures(
            downloads@.map_values(|d: DownloadItem| (d.name@, d.blob@)),
            key@,
            iv@,
        ),
{
    if key.len() != KEY_LEN {
        return Err(CryptoError::InvalidKeyLength);
    }
    if iv.len() != IV_LEN {
        return Err(CryptoError::InvalidIvLength);
    }
    let ghost bvs = downloads@.map_values(|d: DownloadItem| (d.name@, d.blob@));
    let ghost cvs = candidates@.map_values(|p: String| p@);
    let n: usize = downloads.len();
    let mut files: Vec<RestoredFile> = Vec::new();
    let mut failures: usize = 0;
    let mut i: usize = 0;
    proof {
        assert(bvs.skip(0) =~= bvs);
        assert(files@.map_values(|f: RestoredFile| (f.path@, f.data@)) + spec_restored(
            bvs,
            cvs,
            key@,
            iv@,
        ) =~= spec_restored(bvs, cvs, key@, iv@));
    }
    while i < n
        invariant
            i <= n,
            n == downloads@.len(),
            key@.len() == KEY_LEN,
            iv@.len() == IV_LEN,
            bvs == downloads@.map_values(|d: DownloadItem| (d.name@, d.blob@)),
            cvs == candidates@.map_values(|p: String| p@),
            forall|j: int|
                0 <= j < downloads@.len() ==> #[trigger] downloads@[j].blob@.len()
                    <= MAX_DATA_LEN,
            spec_restored(bvs, cvs, key@, iv@) == files@.map_values(
                |f: RestoredFile| (f.path@, f.data@),
            ) + spec_restored(bvs.skip(i as int), cvs, key@, iv@),
            spec_restore_failures(bvs, key@, iv@) == failures + spec_restore_failures(
                bvs.skip(i as int),
                key@,
                iv@,
            ),
            failures <= i,
        decreases n - i,
    {
        let ghost prev_files = files@;
        proof {
            assert(bvs.skip(i as int)[0] == bvs[i as int]);
            assert(bvs.skip(i as int).skip(1) =~= bvs.skip(i + 1));
        }
        match decrypt_data(downloads[i].blob.as_slice(), key, iv) {
            Ok(data) => {
                let path = resolve_restore_path(&downloads[i].name, candidates);
                files.push(RestoredFile { path, data });
                proof {
                    assert(prev_files.map_values(|f: RestoredFile| (f.path@, f.data@)) + (seq![
                        (
                            spec_restore_path(bvs[i as int].0, cvs),
                            aes_dec(bvs[i as int].1, key@, iv@)->Some_0,
                        ),
                    ] + spec_restored(bvs.skip(i + 1), cvs, key@, iv@)) =~= files@.map_values(
                        |f: RestoredFile| (f.path@, f.data@),
                    ) + spec_restored(bvs.skip(i + 1), cvs, key@, iv@));
                }
            },
            Err(_e) => {
                failures = failures + 1;
            },
        }
        i = i + 1;
    }
    proof {
        assert(bvs.skip(n as int) =~= Seq::<(Seq<char>, Seq<u8>)>::empty());
    }
    Ok(RestoreOutput { files, failures })
}

} // verus!
