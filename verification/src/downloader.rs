//! The model downloader's decisions: which files to fetch, from which URL,
//! which cached files to keep, how an answer's status is judged, and the
//! summary of a run. The HTTP requests and the file system belong to the caller.
use vstd::prelude::*;

use crate::text::{decimal, owned, push_decimal, push_str};

verus! {

/// The files a model needs, in the order they are fetched.
pub open spec fn spec_required_files() -> Seq<Seq<char>> {
    seq![
        "tokenizer_config.json"@,
        "config.json"@,
        "tokenizer.json"@,
        "voice_decoder.onnx"@,
        "latent_denoiser.onnx"@,
        "text_encoder.onnx"@,
    ]
}

/// The files a model needs.
pub fn required_files() -> (v: Vec<String>)
    ensures
        v@.len() == spec_required_files().len(),
        forall|i: int| #![trigger v@[i]] 0 <= i < v@.len() ==> v@[i]@ == spec_required_files()[i],
{
    let mut v: Vec<String> = Vec::new();
    v.push(owned("tokenizer_config.json"));
    v.push(owned("config.json"));
    v.push(owned("tokenizer.json"));
    v.push(owned("voice_decoder.onnx"));
    v.push(owned("latent_denoiser.onnx"));
    v.push(owned("text_encoder.onnx"));
    v
}

/// The files to fetch: those asked for, or else the files the model needs.
pub fn files_to_download(requested: Option<Vec<String>>) -> (v: Vec<String>)
    ensures
        requested matches Some(r) ==> v == r,
        requested is None ==> v@.len() == spec_required_files().len() && forall|i: int|
            #![trigger v@[i]]
            0 <= i < v@.len() ==> v@[i]@ == spec_required_files()[i],
{
    match requested {
        Some(r) => r,
        None => required_files(),
    }
}

/// `https://huggingface.co/model_id/resolve/main/onnx/file_name`
pub open spec fn spec_file_url(model_id: Seq<char>, file_name: Seq<char>) -> Seq<char> {
    "https://huggingface.co"@ + seq!['/'] + model_id + "/resolve/main/onnx/"@ + file_name
}

/// The URL a model file is fetched from.
pub fn file_url(model_id: &str, file_name: &str) -> (u: String)
    ensures
        u@ == spec_file_url(model_id@, file_name@),
{
    let mut u = String::new();
    push_str(&mut u, "https://huggingface.co");
    crate::text::push_char(&mut u, '/');
    push_str(&mut u, model_id);
    push_str(&mut u, "/resolve/main/onnx/");
    push_str(&mut u, file_name);
    assert(u@ =~= spec_file_url(model_id@, file_name@));
    u
}

/// A cached file is kept, unless a fresh download is forced, when it exists and
/// is not empty.
pub fn should_skip(force: bool, cached_size: Option<u64>) -> (skip: bool)
    ensures
        skip == (!force && (cached_size matches Some(n) && n > 0)),
{
    if force {
        false
    } else {
        match cached_size {
            Some(n) => n > 0,
            None => false,
        }
    }
}

/// An answer to a download is accepted only with status 200.
pub fn check_download_status(status: u16) -> (r: Result<(), String>)
    ensures
        r is Ok <==> status == 200,
        r matches Err(m) ==> m@ == "HTTP error: "@ + decimal(status as nat),
{
    if status == 200 {
        Ok(())
    } else {
        let mut m = String::new();
        push_str(&mut m, "HTTP error: ");
        push_decimal(&mut m, status as u64);
        Err(m)
    }
}

/// All required files are present.
pub fn all_present(present: &[bool]) -> (b: bool)
    ensures
        b == forall|i: int| 0 <= i < present@.len() ==> #[trigger] present@[i],
{
    let mut i: usize = 0;
    while i < present.len()
        invariant
            i <= present@.len(),
            forall|j: int| 0 <= j < i ==> #[trigger] present@[j],
        decreases present@.len() - i,
    {
        if !present[i] {
            return false;
        }
        i = i + 1;
    }
    true
}

/// What happened to one file.
#[derive(Debug, Clone, Copy, PartialEq, Eq, Structural)]
pub enum FileOutcome {
    Downloaded,
    Skipped,
    Failed,
}

/// How many files of `outcomes` ended with `which`.
pub open spec fn count_outcome(outcomes: Seq<FileOutcome>, which: FileOutcome) -> nat
    decreases outcomes.len(),
{
    if outcomes.len() == 0 {
        0
    } else {
        count_outcome(outcomes.drop_last(), which) + if outcomes.last() == which {
            1nat
        } else {
            0nat
        }
    }
}

/// The counts of a download run.
#[derive(Debug, Clone, Copy)]
pub struct DownloadSummary {
    pub downloaded: usize,
    pub skipped: usize,
    pub failed: usize,
}

impl DownloadSummary {
    /// Some file failed to download.
    pub fn has_failures(&self) -> (b: bool)
        ensures
            b == (self.failed > 0),
    {
        self.failed > 0
    }
}

/// The counts of a run whose files ended as `outcomes`.
pub fn summarize(outcomes: &[FileOutcome]) -> (s: DownloadSummary)
    ensures
        s.downloaded == count_outcome(outcomes@, FileOutcome::Downloaded),
        s.skipped == count_outcome(outcomes@, FileOutcome::Skipped),
        s.failed == count_outcome(outcomes@, FileOutcome::Failed),
{
    let mut s = DownloadSummary { downloaded: 0, skipped: 0, failed: 0 };
    let mut i: usize = 0;
    while i < outcomes.len()
        invariant
            i <= outcomes@.len(),
            s.downloaded == count_outcome(outcomes@.take(i as int), FileOutcome::Downloaded),
            s.skipped == count_outcome(outcomes@.take(i as int), FileOutcome::Skipped),
            s.failed == count_outcome(outcomes@.take(i as int), FileOutcome::Failed),
            s.downloaded + s.skipped + s.failed == i,
        decreases outcomes@.len() - i,
    {
        let ghost t = outcomes@.take(i + 1);
        assert(t.drop_last() =~= outcomes@.take(i as int));
        match outcomes[i] {
            FileOutcome::Downloaded => {
                s.downloaded = s.downloaded + 1;
            },
            FileOutcome::Skipped => {
                s.skipped = s.skipped + 1;
            },
            FileOutcome::Failed => {
                s.failed = s.failed + 1;
            },
        }
        i = i + 1;
    }
    assert(outcomes@.take(i as int) =~= outcomes@);
    s
}

/// Every file of a run is counted once: the three counts add up to the number
/// of files.
pub proof fn law_summary_partitions(outcomes: Seq<FileOutcome>)
    ensures
        count_outcome(outcomes, FileOutcome::Downloaded) + count_outcome(outcomes, FileOutcome::Skipped)
            + count_outcome(outcomes, FileOutcome::Failed) == outcomes.len(),
    decreases outcomes.len(),
{
    if outcomes.len() > 0 {
        law_summary_partitions(outcomes.drop_last());
    }
}

/// Counting starts at nothing, and a file added to a run adds one to the count
/// of its own outcome and nothing to the others.
pub proof fn law_count_outcome_push(outcomes: Seq<FileOutcome>, o: FileOutcome, which: FileOutcome)
    ensures
        count_outcome(Seq::empty(), which) == 0,
        o == which ==> count_outcome(outcomes.push(o), which) == count_outcome(outcomes, which) + 1,
        o != which ==> count_outcome(outcomes.push(o), which) == count_outcome(outcomes, which),
{
    assert(outcomes.push(o).drop_last() =~= outcomes);
}

/// A count is the number of files that ended with that outcome: at most all of
/// them, all of them exactly when every file ended so, and some exactly when
/// some file did. So a run has failures exactly when some file failed.
pub proof fn law_count_outcome_bounds(outcomes: Seq<FileOutcome>, which: FileOutcome)
    ensures
        count_outcome(outcomes, which) <= outcomes.len(),
        count_outcome(outcomes, which) == outcomes.len() <==> forall|i: int|
            0 <= i < outcomes.len() ==> outcomes[i] == which,
        count_outcome(outcomes, which) > 0 <==> exists|i: int| 0 <= i < outcomes.len() && outcomes[i] == which,
    decreases outcomes.len(),
{
    if outcomes.len() > 0 {
        let rest = outcomes.drop_last();
        law_count_outcome_bounds(rest, which);
        let last = outcomes.len() - 1;
        if count_outcome(outcomes, which) > 0 {
            if outcomes[last] != which {
                let i = choose|i: int| 0 <= i < rest.len() && rest[i] == which;
                assert(outcomes[i] == which);
            }
        }
        if exists|i: int| 0 <= i < outcomes.len() && outcomes[i] == which {
            let i = choose|i: int| 0 <= i < outcomes.len() && outcomes[i] == which;
            if i < last {
                assert(rest[i] == which);
            }
        }
        if forall|i: int| 0 <= i < outcomes.len() ==> outcomes[i] == which {
            assert forall|i: int| 0 <= i < rest.len() implies rest[i] == which by {
                assert(outcomes[i] == which);
            }
        }
        if count_outcome(outcomes, which) == outcomes.len() {
            assert forall|i: int| 0 <= i < outcomes.len() implies outcomes[i] == which by {
                if i < last {
                    assert(rest[i] == outcomes[i]);
                }
            }
        }
    }
}

} // verus!
