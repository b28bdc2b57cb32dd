use lindiction::hw_detect::{GpuBackend, GpuProfile, HardwareProfile};
use lindiction::{
    reconcile_backend, reconcile_backend_for, BackendReconciliation, COMPILED_BACKEND,
};

fn hw_no_gpu() -> HardwareProfile {
    HardwareProfile {
        total_ram_bytes: 8_000_000_000,
        available_ram_bytes: 8_000_000_000,
        cpu_threads: 4,
        gpu: None,
    }
}

fn hw_with_gpu(backend: GpuBackend) -> HardwareProfile {
    HardwareProfile {
        total_ram_bytes: 16_000_000_000,
        available_ram_bytes: 16_000_000_000,
        cpu_threads: 8,
        gpu: Some(GpuProfile {
            backend,
            device_name: "Test GPU".into(),
            vram_bytes: 8_000_000_000,
        }),
    }
}

#[test]
fn cpu_build_no_gpu_reconciles_cleanly() {
    if COMPILED_BACKEND != "cpu" {
        return;
    }
    assert_eq!(
        reconcile_backend(&hw_no_gpu()),
        BackendReconciliation::CpuBuildNoGpu
    );
}

#[test]
fn cpu_build_with_gpu_warns() {
    if COMPILED_BACKEND != "cpu" {
        return;
    }
    for backend in [GpuBackend::Cuda, GpuBackend::Vulkan, GpuBackend::Rocm] {
        assert_eq!(
            reconcile_backend(&hw_with_gpu(backend)),
            BackendReconciliation::CpuBuildWithGpu,
            "should warn when GPU detected on CPU build (got backend {:?})",
            backend
        );
    }
}

#[test]
fn gpu_build_matches_gpu() {
    for (compiled, backend) in [
        ("cuda", GpuBackend::Cuda),
        ("vulkan", GpuBackend::Vulkan),
        ("hipblas", GpuBackend::Rocm),
    ] {
        assert_eq!(
            reconcile_backend_for(compiled, &hw_with_gpu(backend)),
            BackendReconciliation::GpuBuildMatchesGpu
        );
    }
}

#[test]
fn gpu_build_mismatched_gpu() {
    for (compiled, wrong_backend) in [
        ("cuda", GpuBackend::Vulkan),
        ("vulkan", GpuBackend::Rocm),
        ("hipblas", GpuBackend::Cuda),
    ] {
        assert_eq!(
            reconcile_backend_for(compiled, &hw_with_gpu(wrong_backend)),
            BackendReconciliation::GpuBuildWithoutMatchingGpu
        );
    }
}

#[test]
fn gpu_build_no_gpu_detected() {
    for compiled in ["cuda", "vulkan", "hipblas"] {
        assert_eq!(
            reconcile_backend_for(compiled, &hw_no_gpu()),
            BackendReconciliation::GpuBuildWithoutMatchingGpu
        );
    }
}
