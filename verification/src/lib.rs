//! Verified core of a push-to-talk dictation daemon for Linux.
//!
//! Everything the daemon decides stands here: the session's state machine, the
//! hotkey grammar, the cleaning of transcripts, the edits of the configuration
//! file, the choice of a model, the update check. The program around it does
//! the input and output.

use vstd::prelude::*;

pub mod app;
pub mod audio;
pub mod autostart;
pub mod cli;
pub mod config;
pub mod decimal;
pub mod hotkey;
pub mod hw_detect;
pub mod inject;
pub mod mic_select;
pub mod model_choice;
pub mod model_download;
pub mod path;
pub mod pattern;
pub mod postprocess;
pub mod preroll;
pub mod replace;
pub mod stt;
pub mod text;
pub mod toml_doc;
pub mod tray;
pub mod update;
pub mod version;

use crate::hw_detect::HardwareProfile;

verus! {

/// Which GPU backend this build is for; `cpu` for none.
pub const COMPILED_BACKEND: &'static str = "cpu";

/// Result of comparing the detected GPU against the compiled backend.
#[derive(Debug, Clone, Copy, PartialEq, Eq, Structural)]
pub enum BackendReconciliation {
    /// CPU-only build on a host with no detected GPU: matching.
    CpuBuildNoGpu,
    /// GPU build, and the detected GPU speaks its backend.
    GpuBuildMatchesGpu,
    /// CPU build, but a usable GPU was detected. The daemon works but misses
    /// the GPU.
    CpuBuildWithGpu,
    /// GPU build, but the detected GPU speaks another backend or none was
    /// detected. The daemon works on the CPU.
    GpuBuildWithoutMatchingGpu,
}

/// How a build for `compiled` and the detected hardware go together.
pub open spec fn reconciled(compiled: Seq<char>, hw: HardwareProfile) -> BackendReconciliation {
    if compiled == "cpu"@ {
        if hw.gpu is None {
            BackendReconciliation::CpuBuildNoGpu
        } else {
            BackendReconciliation::CpuBuildWithGpu
        }
    } else if hw.gpu matches Some(g) && g.backend.name() == compiled {
        BackendReconciliation::GpuBuildMatchesGpu
    } else {
        BackendReconciliation::GpuBuildWithoutMatchingGpu
    }
}

/// Compare the detected hardware with a build for `compiled`.
pub fn reconcile_backend_for(compiled: &str, hw: &HardwareProfile) -> (r: BackendReconciliation)
    ensures
        r == reconciled(compiled@, *hw),
{
    let compiled_is_gpu = !text::same(compiled, "cpu");
    let detected_match = match &hw.gpu {
        Some(g) => text::same(g.backend.tag(), compiled),
        None => false,
    };
    match (compiled_is_gpu, &hw.gpu, detected_match) {
        (false, None, _) => BackendReconciliation::CpuBuildNoGpu,
        (false, Some(_), _) => BackendReconciliation::CpuBuildWithGpu,
        (true, _, true) => BackendReconciliation::GpuBuildMatchesGpu,
        (true, _, false) => BackendReconciliation::GpuBuildWithoutMatchingGpu,
    }
}

/// Compare the detected hardware with this build.
pub fn reconcile_backend(hw: &HardwareProfile) -> (r: BackendReconciliation)
    ensures
        r == reconciled(COMPILED_BACKEND@, *hw),
{
    reconcile_backend_for(COMPILED_BACKEND, hw)
}

/// A build for a GPU backend matches exactly the hosts whose GPU speaks that
/// backend, and no two backends match the same GPU.
pub proof fn backends_match_their_gpu(
    a: hw_detect::GpuBackend,
    b: hw_detect::GpuBackend,
    hw: HardwareProfile,
)
    requires
        hw.gpu matches Some(g) && g.backend == b,
    ensures
        (reconciled(a.name(), hw) is GpuBuildMatchesGpu) == (a == b),
{
    reveal_strlit("cpu");
    reveal_strlit("cuda");
    reveal_strlit("vulkan");
    reveal_strlit("hipblas");
    assert("cpu"@.len() == 3);
    assert("cuda"@.len() == 4);
    assert("vulkan"@.len() == 6);
    assert("hipblas"@.len() == 7);
}

// ---------------------------------------------------------------------------
// Laws
// ---------------------------------------------------------------------------

/// A CPU build matches a host without a GPU and misses any GPU; a build for a GPU
/// matches that GPU, and neither another nor none.
pub proof fn builds_meet_their_hosts(
    backend: hw_detect::GpuBackend,
    hw: HardwareProfile,
    cpu: BackendReconciliation,
    gpu: BackendReconciliation,
    own: BackendReconciliation,
    name: &str,
)
    requires
        name@ == backend.name(),
        call_ensures(reconcile_backend_for, ("cpu", &hw), cpu),
        call_ensures(reconcile_backend_for, (name, &hw), gpu),
        call_ensures(reconcile_backend, (&hw,), own),
    ensures
        hw.gpu is None ==> cpu is CpuBuildNoGpu && gpu is GpuBuildWithoutMatchingGpu,
        hw.gpu is Some ==> cpu is CpuBuildWithGpu,
        hw.gpu matches Some(g) ==> (gpu is GpuBuildMatchesGpu <==> g.backend == backend) && (gpu
            is GpuBuildWithoutMatchingGpu <==> g.backend != backend),
        own == cpu,
{
    reveal_strlit("cpu");
    assert("cpu"@.len() == 3);
    reveal_strlit("cuda");
    reveal_strlit("vulkan");
    reveal_strlit("hipblas");
    assert("cuda"@.len() == 4 && "vulkan"@.len() == 6 && "hipblas"@.len() == 7);
    if hw.gpu is Some {
        hw_detect::backends_go_by_their_names(backend, hw.gpu->0.backend);
    }
}

} // verus!
