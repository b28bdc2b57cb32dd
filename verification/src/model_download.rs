//! The first-run download of a whisper model.

use vstd::prelude::*;

use crate::decimal;
use crate::model_choice::ModelId;
use crate::path;
use crate::text;

verus! {

/// Where the model's file lives, in the user's data directory.
pub open spec fn model_path(model: ModelId, data_dir: Option<Seq<char>>) -> Seq<char> {
    let base = match data_dir {
        Some(dir) => dir,
        None => ".local/share"@,
    };
    path::joined(path::joined(path::joined(base, "lindiction"@), "models"@), model.file())
}

/// The path of the model's file inside the user's data directory.
pub fn default_model_path_for(model: ModelId, data_dir: Option<&str>) -> (r: String)
    ensures
        r@ == model_path(model, text::seen(data_dir)),
{
    let base: &str = match data_dir {
        Some(dir) => dir,
        None => ".local/share",
    };
    let own = path::join(base, "lindiction");
    let models = path::join(own.as_str(), "models");
    path::join(models.as_str(), model.filename())
}

/// The smallest size that is taken for the model: 80% of the expected size
/// leaves room for re-packaging and rejects error pages.
pub fn min_expected_bytes(model: ModelId) -> (r: u64)
    ensures
        r == model.size() * 80 / 100,
{
    model.approx_download_bytes() * 80 / 100
}

/// A download to be made: run `curl` with `args`, check the size of the file
/// at `tmp`, and rename it to `target`.
#[derive(Debug)]
pub struct DownloadPlan {
    pub target: String,
    pub tmp: String,
    pub args: Vec<String>,
    pub model: ModelId,
}

/// Whether `p` downloads `model` to `target`.
pub open spec fn is_download(p: DownloadPlan, target: Seq<char>, model: ModelId) -> bool {
    &&& p.target@ == target
    &&& p.tmp@ == target + ".tmp"@
    &&& p.model == model
    &&& text::texts(p.args@) == seq![
        "-L"@,
        "--fail"@,
        "--show-error"@,
        "-o"@,
        target + ".tmp"@,
        model.url(),
    ]
}

/// Why a download was given up.
#[derive(Debug)]
pub enum DownloadError {
    /// `curl` failed with `status`.
    CurlFailed { status: String, model: ModelId, target: String },
    /// The file is too small to be the model.
    TooSmall { bytes: u64, model: ModelId },
}

impl DownloadError {
    /// The message for this error.
    pub open spec fn text(self) -> Seq<char> {
        match self {
            DownloadError::CurlFailed { status, model, target } => "curl exited with "@ + status@
                + ". Could not download "@ + model.name() + " ("@ + model.url() + ") to "@
                + target@
                + ". Check your network connection, or pass --model /path/to/existing.bin."@,
            DownloadError::TooSmall { bytes, model } => "downloaded "@ + decimal::numeral(
                bytes as nat,
            ) + " bytes from "@ + model.url() + " (expected >= "@ + decimal::numeral(
                (model.size() * 80 / 100) as nat,
            )
                + "). The server likely returned an error page. Check the URL and your network, or pass --model /path/to/existing.bin."@,
        }
    }

    /// The message for this error.
    pub fn message(&self) -> (r: String)
        ensures
            r@ == self.text(),
    {
        match self {
            DownloadError::CurlFailed { status, model, target } => {
                let mut out: String = "curl exited with ".to_owned();
                out.append(status.as_str());
                out.append(". Could not download ");
                out.append(model.tag());
                out.append(" (");
                out.append(model.download_url());
                out.append(") to ");
                out.append(target.as_str());
                out.append(
                    ". Check your network connection, or pass --model /path/to/existing.bin.",
                );
                out
            },
            DownloadError::TooSmall { bytes, model } => {
                let mut out: String = "downloaded ".to_owned();
                decimal::push_numeral(&mut out, *bytes);
                out.append(" bytes from ");
                out.append(model.download_url());
                out.append(" (expected >= ");
                decimal::push_numeral(&mut out, min_expected_bytes(*model));
                out.append(
                    "). The server likely returned an error page. Check the URL and your network, or pass --model /path/to/existing.bin.",
                );
                out
            },
        }
    }
}

/// Plan the download of `model` to `target`. The file becomes visible there
/// only once it is complete and has passed the size check.
fn download(target: &str, model: ModelId) -> (r: DownloadPlan)
    ensures
        is_download(r, target@, model),
{
    let tmp = text::concat2(target, ".tmp");
    let args: Vec<String> = vec![
        "-L".to_owned(),
        "--fail".to_owned(),
        "--show-error".to_owned(),
        "-o".to_owned(),
        tmp.clone(),
        model.download_url().to_owned(),
    ];
    assert(text::texts(args@) =~= seq![
        "-L"@,
        "--fail"@,
        "--show-error"@,
        "-o"@,
        target@ + ".tmp"@,
        model.url(),
    ]);
    DownloadPlan { target: target.to_owned(), tmp, args, model }
}

/// Decide whether the model at `path` is to be downloaded, where `present` says
/// whether a file is there.
///
/// Only a model that was chosen automatically, and only at its own place in
/// the data directory, is ever downloaded: a path that the user set is left
/// alone.
pub fn ensure_model(
    path: &str,
    auto_model: Option<ModelId>,
    data_dir: Option<&str>,
    present: bool,
) -> (r: Option<DownloadPlan>)
    ensures
        match auto_model {
            Some(model) => {
                let own = model_path(model, text::seen(data_dir));
                let wanted = path::same_place(path@, own) && !present;
                match r {
                    Some(plan) => wanted && is_download(plan, own, model),
                    None => !wanted,
                }
            },
            None => r is None,
        },
{
    let model = match auto_model {
        Some(model) => model,
        None => {
            return None;
        },
    };
    let own = default_model_path_for(model, data_dir);
    if !path::same(path, own.as_str()) {
        return None;
    }
    if present {
        return None;
    }
    Some(download(own.as_str(), model))
}

impl DownloadPlan {
    /// Judge how `curl` ended; `status` says how it exited.
    pub fn check_curl(&self, success: bool, status: &str) -> (r: Result<(), DownloadError>)
        ensures
            match r {
                Ok(_) => success,
                Err(e) => !success && (e matches DownloadError::CurlFailed { status: s, model, target }
                    && s@ == status@ && model == self.model && target@ == self.target@),
            },
    {
        if success {
            return Ok(());
        }
        Err(
            DownloadError::CurlFailed {
                status: status.to_owned(),
                model: self.model,
                target: self.target.clone(),
            },
        )
    }
}

/// Judge a finished download by the size of its file.
pub fn check_download(model: ModelId, bytes: u64) -> (r: Result<(), DownloadError>)
    ensures
        match r {
            Ok(_) => bytes >= model.size() * 80 / 100,
            Err(e) => bytes < model.size() * 80 / 100 && e == (DownloadError::TooSmall {
                bytes,
                model,
            }),
        },
{
    if bytes < min_expected_bytes(model) {
        Err(DownloadError::TooSmall { bytes, model })
    } else {
        Ok(())
    }
}

// ---------------------------------------------------------------------------
// Laws
// ---------------------------------------------------------------------------

/// Where a model lives: in `lindiction/models` of the data directory, under its own
/// file name.
pub proof fn models_live_in_the_data_directory(model: ModelId, dir: Seq<char>)
    requires
        dir.len() > 0,
        dir[dir.len() - 1] != '/',
    ensures
        model_path(model, Some(dir)) == dir + "/lindiction/models/"@ + model.file(),
        model_path(model, None) == ".local/share/lindiction/models/"@ + model.file(),
{
    reveal_strlit("/");
    reveal_strlit("lindiction");
    reveal_strlit("models");
    reveal_strlit("/lindiction/models/");
    reveal_strlit(".local/share");
    reveal_strlit(".local/share/lindiction/models/");
    inside_the_data_directory(model, dir);
    inside_the_data_directory(model, ".local/share"@);
    assert(".local/share"@ + "/lindiction/models/"@ =~= ".local/share/lindiction/models/"@);
}

proof fn inside_the_data_directory(model: ModelId, dir: Seq<char>)
    requires
        dir.len() > 0,
        dir[dir.len() - 1] != '/',
    ensures
        path::joined(path::joined(path::joined(dir, "lindiction"@), "models"@), model.file())
            == dir + "/lindiction/models/"@ + model.file(),
{
    reveal_strlit("/");
    reveal_strlit("lindiction");
    reveal_strlit("models");
    reveal_strlit("/lindiction/models/");
    let own = path::joined(dir, "lindiction"@);
    assert(own =~= dir + "/"@ + "lindiction"@);
    assert(own.last() == 'n');
    let models = path::joined(own, "models"@);
    assert(models =~= own + "/"@ + "models"@);
    assert(models.last() == 's');
    assert(path::joined(models, model.file()) =~= dir + "/lindiction/models/"@ + model.file());
}

/// A download asks for the model's own address, writes to a file beside the target
/// until it is complete, and never to the target itself.
pub proof fn downloads_fetch_the_model(
    path: &str,
    model: ModelId,
    dir: &str,
    present: bool,
    r: Option<DownloadPlan>,
)
    requires
        call_ensures(ensure_model, (path, Some(model), Some(dir), present), r),
    ensures
        r is Some <==> !present && path::same_place(path@, model_path(model, Some(dir@))),
        r matches Some(plan) ==> {
            &&& plan.model == model
            &&& plan.target@ == model_path(model, Some(dir@))
            &&& plan.tmp@ == plan.target@ + ".tmp"@
            &&& plan.tmp@ != plan.target@
            &&& plan.args@.len() == 6
            &&& plan.args@[0]@ == "-L"@
            &&& plan.args@[1]@ == "--fail"@
            &&& plan.args@[2]@ == "--show-error"@
            &&& plan.args@[3]@ == "-o"@
            &&& plan.args@[4]@ == plan.tmp@
            &&& plan.args@[5]@ == "https://huggingface.co/ggerganov/whisper.cpp/resolve/main/ggml-"@
                + model.name() + ".bin"@
        },
{
    if r is Some {
        let plan = r->0;
        let args = text::texts(plan.args@);
        assert(is_download(plan, model_path(model, Some(dir@)), model));
        assert(args.len() == 6);
        assert(args[0] == plan.args@[0]@ && args[1] == plan.args@[1]@ && args[2] == plan.args@[2]@);
        assert(args[3] == plan.args@[3]@ && args[4] == plan.args@[4]@ && args[5] == plan.args@[5]@);
        crate::model_choice::models_go_by_their_names();
        reveal_strlit(".tmp");
        assert(plan.tmp@.len() == plan.target@.len() + 4);
        reveal_strlit("ggml-");
        reveal_strlit("https://huggingface.co/ggerganov/whisper.cpp/resolve/main/");
        reveal_strlit("https://huggingface.co/ggerganov/whisper.cpp/resolve/main/ggml-");
        assert(model.url() == "https://huggingface.co/ggerganov/whisper.cpp/resolve/main/"@
            + model.file());
        assert("https://huggingface.co/ggerganov/whisper.cpp/resolve/main/"@ + "ggml-"@
            =~= "https://huggingface.co/ggerganov/whisper.cpp/resolve/main/ggml-"@);
        assert(model.url()
            =~= "https://huggingface.co/ggerganov/whisper.cpp/resolve/main/ggml-"@ + model.name()
            + ".bin"@);
    }
}

/// A model that was not chosen automatically is never downloaded.
pub proof fn chosen_models_are_left_alone(
    path: &str,
    dir: Option<&str>,
    present: bool,
    r: Option<DownloadPlan>,
)
    requires
        call_ensures(ensure_model, (path, None::<ModelId>, dir, present), r),
    ensures
        r is None,
{
}

/// How large a file must be to be taken for the model.
pub proof fn small_files_are_refused(model: ModelId, bytes: u64, r: Result<(), DownloadError>)
    requires
        call_ensures(check_download, (model, bytes), r),
    ensures
        r is Ok <==> match model {
            ModelId::TinyEn => bytes >= 60_000_000,
            ModelId::BaseEn => bytes >= 113_600_000,
            ModelId::SmallEn => bytes >= 390_400_000,
            ModelId::MediumEn => bytes >= 1_200_000_000,
        },
{
}

/// What is said of a download that failed: the model, its address and its place, and
/// how `curl` ended; or the size that came and the least that was expected.
pub proof fn failed_downloads_are_told(
    plan: DownloadPlan,
    success: bool,
    status: &str,
    r: Result<(), DownloadError>,
    bytes: u64,
)
    requires
        call_ensures(DownloadPlan::check_curl, (&plan, success, status), r),
    ensures
        r is Ok <==> success,
        r matches Err(e) ==> e.text() == "curl exited with "@ + status@
            + ". Could not download "@ + plan.model.name() + " ("@ + plan.model.url() + ") to "@
            + plan.target@
            + ". Check your network connection, or pass --model /path/to/existing.bin."@,
        ("downloaded "@ + decimal::numeral(bytes as nat) + " bytes from "@
            + plan.model.url()).is_prefix_of(
            (DownloadError::TooSmall { bytes, model: plan.model }).text(),
        ),
{
    let front = "downloaded "@ + decimal::numeral(bytes as nat) + " bytes from "@
        + plan.model.url();
    let told = (DownloadError::TooSmall { bytes, model: plan.model }).text();
    assert(told.subrange(0, front.len() as int) =~= front);
}

/// The path that is made for a model is the one it lives at.
pub proof fn default_paths_are_the_models(model: ModelId, dir: Option<&str>, r: String)
    requires
        call_ensures(default_model_path_for, (model, dir), r),
    ensures
        model.file().is_suffix_of(r@),
        r@ == model_path(model, text::seen(dir)),
{
    let base = match dir {
        Some(d) => d@,
        None => ".local/share"@,
    };
    path::joining_adds_one_slash(
        path::joined(path::joined(base, "lindiction"@), "models"@),
        model.file(),
    );
}

/// The least that is expected is four fifths of the model's size.
pub proof fn four_fifths_are_expected(model: ModelId, r: u64)
    requires
        call_ensures(min_expected_bytes, (model,), r),
    ensures
        r == match model {
            ModelId::TinyEn => 60_000_000int,
            ModelId::BaseEn => 113_600_000,
            ModelId::SmallEn => 390_400_000,
            ModelId::MediumEn => 1_200_000_000,
        },
        5 * r == 4 * model.size(),
{
}

/// Where the data directory is unknown, a model is still only downloaded to its own
/// place.
pub proof fn downloads_go_to_the_models_place(
    path: &str,
    model: ModelId,
    dir: Option<&str>,
    present: bool,
    r: Option<DownloadPlan>,
)
    requires
        call_ensures(ensure_model, (path, Some(model), dir, present), r),
    ensures
        r is Some <==> !present && path::same_place(path@, model_path(model, text::seen(dir))),
        r matches Some(plan) ==> plan.model == model && model.file().is_suffix_of(plan.target@)
            && plan.args@.len() == 6 && plan.args@[5]@ == model.url() && plan.args@[4]@
            == plan.tmp@ && plan.tmp@ == plan.target@ + ".tmp"@,
{
    if r is Some {
        let plan = r->0;
        let args = text::texts(plan.args@);
        assert(args.len() == 6);
        assert(args[4] == plan.args@[4]@ && args[5] == plan.args@[5]@);
        let base = match dir {
            Some(d) => d@,
            None => ".local/share"@,
        };
        path::joining_adds_one_slash(
            path::joined(path::joined(base, "lindiction"@), "models"@),
            model.file(),
        );
    }
}

/// What is said of a file that is too small: how large it is, where it came from, and
/// the least that was expected.
pub proof fn small_files_are_told(model: ModelId, bytes: u64, r: Result<(), DownloadError>)
    requires
        call_ensures(check_download, (model, bytes), r),
    ensures
        r matches Err(e) ==> e.text() == "downloaded "@ + decimal::numeral(bytes as nat)
            + " bytes from "@ + model.url() + " (expected >= "@ + decimal::numeral(
            match model {
                ModelId::TinyEn => 60_000_000,
                ModelId::BaseEn => 113_600_000,
                ModelId::SmallEn => 390_400_000,
                ModelId::MediumEn => 1_200_000_000,
            },
        )
            + "). The server likely returned an error page. Check the URL and your network, or pass --model /path/to/existing.bin."@,
{
}

/// The message of an error is its text, and two errors with the same text give the
/// same message.
pub proof fn messages_are_their_text(a: DownloadError, b: DownloadError, one: String, other: String)
    requires
        call_ensures(DownloadError::message, (&a,), one),
        call_ensures(DownloadError::message, (&b,), other),
    ensures
        one@ == a.text(),
        a.text() == b.text() <==> one@ == other@,
{
}

} // verus!
