//! Which whisper model to run on a given host.
//!
//! The budget, 60% of the available memory, leaves room for the rest of the
//! system. `SmallEn` is the fallback where the memory is unknown.

use vstd::prelude::*;

use crate::hw_detect::HardwareProfile;
use crate::text;

verus! {

/// The English-only whisper models that are chosen from.
#[derive(Debug, Clone, Copy, PartialEq, Eq, Structural)]
pub enum ModelId {
    TinyEn,
    BaseEn,
    SmallEn,
    MediumEn,
}

impl ModelId {
    /// The name of the model.
    pub open spec fn name(self) -> Seq<char> {
        match self {
            ModelId::TinyEn => "tiny.en"@,
            ModelId::BaseEn => "base.en"@,
            ModelId::SmallEn => "small.en"@,
            ModelId::MediumEn => "medium.en"@,
        }
    }

    /// The model's file.
    pub open spec fn file(self) -> Seq<char> {
        match self {
            ModelId::TinyEn => "ggml-tiny.en.bin"@,
            ModelId::BaseEn => "ggml-base.en.bin"@,
            ModelId::SmallEn => "ggml-small.en.bin"@,
            ModelId::MediumEn => "ggml-medium.en.bin"@,
        }
    }

    /// The model's address.
    pub open spec fn url(self) -> Seq<char> {
        match self {
            ModelId::TinyEn =>
                "https://huggingface.co/ggerganov/whisper.cpp/resolve/main/ggml-tiny.en.bin"@,
            ModelId::BaseEn =>
                "https://huggingface.co/ggerganov/whisper.cpp/resolve/main/ggml-base.en.bin"@,
            ModelId::SmallEn =>
                "https://huggingface.co/ggerganov/whisper.cpp/resolve/main/ggml-small.en.bin"@,
            ModelId::MediumEn =>
                "https://huggingface.co/ggerganov/whisper.cpp/resolve/main/ggml-medium.en.bin"@,
        }
    }

    /// The approximate size of the model's file.
    pub open spec fn size(self) -> int {
        match self {
            ModelId::TinyEn => 75_000_000,
            ModelId::BaseEn => 142_000_000,
            ModelId::SmallEn => 488_000_000,
            ModelId::MediumEn => 1_500_000_000,
        }
    }

    /// The approximate memory that the model takes at run time.
    pub open spec fn ram(self) -> int {
        self.size() * 2
    }

    /// The file name under which the model is stored.
    pub fn filename(self) -> (r: &'static str)
        ensures
            r@ == self.file(),
    {
        match self {
            ModelId::TinyEn => "ggml-tiny.en.bin",
            ModelId::BaseEn => "ggml-base.en.bin",
            ModelId::SmallEn => "ggml-small.en.bin",
            ModelId::MediumEn => "ggml-medium.en.bin",
        }
    }

    /// Canonical download URL on Hugging Face.
    pub fn download_url(self) -> (r: &'static str)
        ensures
            r@ == self.url(),
    {
        match self {
            ModelId::TinyEn =>
                "https://huggingface.co/ggerganov/whisper.cpp/resolve/main/ggml-tiny.en.bin",
            ModelId::BaseEn =>
                "https://huggingface.co/ggerganov/whisper.cpp/resolve/main/ggml-base.en.bin",
            ModelId::SmallEn =>
                "https://huggingface.co/ggerganov/whisper.cpp/resolve/main/ggml-small.en.bin",
            ModelId::MediumEn =>
                "https://huggingface.co/ggerganov/whisper.cpp/resolve/main/ggml-medium.en.bin",
        }
    }

    /// Approximate on-disk size in bytes, to tell a model from an error page.
    pub fn approx_download_bytes(self) -> (r: u64)
        ensures
            r == self.size(),
    {
        match self {
            ModelId::TinyEn => 75_000_000,
            ModelId::BaseEn => 142_000_000,
            ModelId::SmallEn => 488_000_000,
            ModelId::MediumEn => 1_500_000_000,
        }
    }

    /// Approximate memory at run time in bytes: the model, the working state
    /// and the buffers of the beam search take about twice the file's size.
    pub fn approx_runtime_ram_bytes(self) -> (r: u64)
        ensures
            r == self.ram(),
    {
        self.approx_download_bytes() * 2
    }

    /// Human-readable name for logging. Stable: logs may be searched for it.
    pub fn tag(self) -> (r: &'static str)
        ensures
            r@ == self.name(),
    {
        match self {
            ModelId::TinyEn => "tiny.en",
            ModelId::BaseEn => "base.en",
            ModelId::SmallEn => "small.en",
            ModelId::MediumEn => "medium.en",
        }
    }
}

/// Whether `model` fits into 60% of `available` bytes, rounded down.
pub open spec fn fits(model: ModelId, available: u64) -> bool {
    model.ram() <= available as int * 60 / 100
}

/// The model for a host with `available` bytes of free memory: the largest
/// that fits, the smallest if none does, and `SmallEn` if nothing is known.
pub open spec fn recommended(available: u64) -> ModelId {
    if available == 0 {
        ModelId::SmallEn
    } else if fits(ModelId::MediumEn, available) {
        ModelId::MediumEn
    } else if fits(ModelId::SmallEn, available) {
        ModelId::SmallEn
    } else if fits(ModelId::BaseEn, available) {
        ModelId::BaseEn
    } else {
        ModelId::TinyEn
    }
}

/// Pick the largest model that fits into 60% of the host's available memory.
pub fn recommend(hw: &HardwareProfile) -> (r: ModelId)
    ensures
        r == recommended(hw.available_ram_bytes),
{
    if hw.available_ram_bytes == 0 {
        return ModelId::SmallEn;
    }
    let budget: u128 = hw.available_ram_bytes as u128 * 60 / 100;
    if ModelId::MediumEn.approx_runtime_ram_bytes() as u128 <= budget {
        ModelId::MediumEn
    } else if ModelId::SmallEn.approx_runtime_ram_bytes() as u128 <= budget {
        ModelId::SmallEn
    } else if ModelId::BaseEn.approx_runtime_ram_bytes() as u128 <= budget {
        ModelId::BaseEn
    } else {
        ModelId::TinyEn
    }
}

// ---------------------------------------------------------------------------
// Laws
// ---------------------------------------------------------------------------

/// Where the memory is known, the model fits unless it is the smallest one,
/// and every larger model would not have fitted.
pub proof fn largest_model_that_fits(available: u64, other: ModelId)
    requires
        available > 0,
    ensures
        recommended(available) is TinyEn || fits(recommended(available), available),
        other.ram() > recommended(available).ram() ==> !fits(other, available),
{
}

/// More memory never leads to a smaller model.
pub proof fn more_memory_never_hurts(less: u64, more: u64)
    requires
        0 < less <= more,
    ensures
        recommended(less).ram() <= recommended(more).ram(),
{
    assert(less as int * 60 / 100 <= more as int * 60 / 100);
}

/// The file name carries the model's name, and the address ends in the file
/// name.
pub proof fn model_names_agree(m: ModelId)
    ensures
        text::has_infix(m.file(), m.name()),
        m.file().is_suffix_of(m.url()),
        "https://"@.is_prefix_of(m.url()),
{
    reveal_strlit("tiny.en");
    reveal_strlit("base.en");
    reveal_strlit("small.en");
    reveal_strlit("medium.en");
    reveal_strlit("ggml-tiny.en.bin");
    reveal_strlit("ggml-base.en.bin");
    reveal_strlit("ggml-small.en.bin");
    reveal_strlit("ggml-medium.en.bin");
    reveal_strlit("https://");
    reveal_strlit("https://huggingface.co/ggerganov/whisper.cpp/resolve/main/ggml-tiny.en.bin");
    reveal_strlit("https://huggingface.co/ggerganov/whisper.cpp/resolve/main/ggml-base.en.bin");
    reveal_strlit("https://huggingface.co/ggerganov/whisper.cpp/resolve/main/ggml-small.en.bin");
    reveal_strlit("https://huggingface.co/ggerganov/whisper.cpp/resolve/main/ggml-medium.en.bin");
    let n = m.name().len() as int;
    assert(m.file().subrange(5, 5 + n) =~= m.name());
    assert(text::occurs_at(m.file(), m.name(), 5));
    let f = m.file().len() as int;
    let u = m.url().len() as int;
    assert(m.url().subrange(u - f, u) =~= m.file());
    assert(m.url().subrange(0, 8) =~= "https://"@);
}

/// A model takes more memory than its file takes space.
pub proof fn running_takes_more_than_storing(m: ModelId)
    ensures
        m.ram() > m.size(),
{
}

/// The models by their own names: each is stored in a file of that name and fetched
/// from an address that ends in it.
pub proof fn models_go_by_their_names()
    ensures
        ModelId::TinyEn.name() == "tiny.en"@,
        ModelId::BaseEn.name() == "base.en"@,
        ModelId::SmallEn.name() == "small.en"@,
        ModelId::MediumEn.name() == "medium.en"@,
        forall|m: ModelId| #[trigger] m.file() == "ggml-"@ + m.name() + ".bin"@,
        forall|m: ModelId| #[trigger]
            m.url() == "https://huggingface.co/ggerganov/whisper.cpp/resolve/main/"@ + m.file(),
{
    reveal_strlit("tiny.en");
    reveal_strlit("base.en");
    reveal_strlit("small.en");
    reveal_strlit("medium.en");
    reveal_strlit("ggml-");
    reveal_strlit(".bin");
    reveal_strlit("ggml-tiny.en.bin");
    reveal_strlit("ggml-base.en.bin");
    reveal_strlit("ggml-small.en.bin");
    reveal_strlit("ggml-medium.en.bin");
    reveal_strlit("https://huggingface.co/ggerganov/whisper.cpp/resolve/main/");
    reveal_strlit("https://huggingface.co/ggerganov/whisper.cpp/resolve/main/ggml-tiny.en.bin");
    reveal_strlit("https://huggingface.co/ggerganov/whisper.cpp/resolve/main/ggml-base.en.bin");
    reveal_strlit("https://huggingface.co/ggerganov/whisper.cpp/resolve/main/ggml-small.en.bin");
    reveal_strlit("https://huggingface.co/ggerganov/whisper.cpp/resolve/main/ggml-medium.en.bin");
    assert forall|m: ModelId| #[trigger] m.file() == "ggml-"@ + m.name() + ".bin"@ by {
        assert(m.file() =~= "ggml-"@ + m.name() + ".bin"@);
    }
    assert forall|m: ModelId| #[trigger]
        m.url() == "https://huggingface.co/ggerganov/whisper.cpp/resolve/main/"@ + m.file() by {
        assert(m.url() =~= "https://huggingface.co/ggerganov/whisper.cpp/resolve/main/"@
            + m.file());
    }
}

/// No two models share a name, a file or an address.
pub proof fn models_are_told_apart(a: ModelId, b: ModelId)
    requires
        a.name() == b.name() || a.file() == b.file() || a.url() == b.url(),
    ensures
        a == b,
{
    models_go_by_their_names();
    reveal_strlit("tiny.en");
    reveal_strlit("base.en");
    reveal_strlit("small.en");
    reveal_strlit("medium.en");
    let base = "https://huggingface.co/ggerganov/whisper.cpp/resolve/main/"@;
    let n = base.len() as int;
    assert(a.url().skip(n) =~= a.file());
    assert(b.url().skip(n) =~= b.file());
    let head = "ggml-"@.len() as int;
    let tail = ".bin"@.len() as int;
    assert(a.file().subrange(head, a.file().len() - tail) =~= a.name());
    assert(b.file().subrange(head, b.file().len() - tail) =~= b.name());
    assert("tiny.en"@[0] == 't' && "base.en"@[0] == 'b');
    assert("small.en"@[0] == 's' && "medium.en"@[0] == 'm');
}

/// The sizes of the files, and the memory that running them takes.
pub proof fn models_have_their_sizes()
    ensures
        ModelId::TinyEn.size() == 75_000_000 && ModelId::TinyEn.ram() == 150_000_000,
        ModelId::BaseEn.size() == 142_000_000 && ModelId::BaseEn.ram() == 284_000_000,
        ModelId::SmallEn.size() == 488_000_000 && ModelId::SmallEn.ram() == 976_000_000,
        ModelId::MediumEn.size() == 1_500_000_000 && ModelId::MediumEn.ram() == 3_000_000_000,
{
}

/// How much memory it takes for a model to be chosen: the medium one from five
/// billion bytes on, and so on down; without knowledge it is the small one.
pub proof fn memory_decides(available: u64)
    ensures
        recommended(available) is MediumEn <==> available >= 5_000_000_000,
        recommended(available) is SmallEn <==> available == 0 || 1_626_666_667 <= available
            < 5_000_000_000,
        recommended(available) is BaseEn <==> 473_333_334 <= available < 1_626_666_667,
        recommended(available) is TinyEn <==> 0 < available < 473_333_334,
{
}

/// What is told of a model is what it goes by: its name in its file, its file at the
/// end of its address, and at run time twice the memory of its file.
pub proof fn models_tell_the_same(
    model: ModelId,
    tag: &'static str,
    file: &'static str,
    url: &'static str,
    bytes: u64,
    ram: u64,
)
    requires
        call_ensures(ModelId::tag, (model,), tag),
        call_ensures(ModelId::filename, (model,), file),
        call_ensures(ModelId::download_url, (model,), url),
        call_ensures(ModelId::approx_download_bytes, (model,), bytes),
        call_ensures(ModelId::approx_runtime_ram_bytes, (model,), ram),
    ensures
        file@ == "ggml-"@ + tag@ + ".bin"@,
        url@ == "https://huggingface.co/ggerganov/whisper.cpp/resolve/main/"@ + file@,
        ram == 2 * bytes,
        tag@ == match model {
            ModelId::TinyEn => "tiny.en"@,
            ModelId::BaseEn => "base.en"@,
            ModelId::SmallEn => "small.en"@,
            ModelId::MediumEn => "medium.en"@,
        },
{
    models_go_by_their_names();
    models_have_their_sizes();
}

/// The recommended model fits the budget wherever any does, and no larger one would.
pub proof fn recommendations_fit(hw: HardwareProfile, r: ModelId)
    requires
        call_ensures(recommend, (&hw,), r),
    ensures
        hw.available_ram_bytes >= 5_000_000_000 ==> r is MediumEn,
        1_626_666_667 <= hw.available_ram_bytes < 5_000_000_000 ==> r is SmallEn,
        473_333_334 <= hw.available_ram_bytes < 1_626_666_667 ==> r is BaseEn,
        0 < hw.available_ram_bytes < 473_333_334 ==> r is TinyEn,
        hw.available_ram_bytes == 0 ==> r is SmallEn,
{
    memory_decides(hw.available_ram_bytes);
}

} // verus!
