//! The order of the steps of a GPU mode switch.
use crate::hardware::gpu::GpuMode;
use vstd::prelude::*;

verus! {

/// The graphics mode a switch goes to.
#[derive(Clone, Copy, Debug, PartialEq, Eq, Structural)]
pub enum SwitchTarget {
    Integrated,
    Hybrid,
    Nvidia,
}

/// One step of a GPU mode switch.
#[derive(Clone, Copy, Debug, PartialEq, Eq, Structural)]
pub enum SwitchStep {
    /// Take the exclusive switch lock; stop when another switch holds it.
    AcquireLock,
    /// Rescan the PCI bus so that a removed GPU reappears.
    RescanPci,
    /// Create the cache file when it is missing.
    EnsureCache,
    /// Read the NVIDIA `BusID` from the cache, else from `lspci`.
    ReadBusId,
    /// Remove the files of every mode.
    Cleanup,
    /// Apply the mode's configuration actions.
    WriteConfig,
    /// Stop the display manager or end graphical sessions; stop on failure.
    PrepareNoReboot,
    /// Kill the processes that use the NVIDIA GPU.
    KillGpuProcesses,
    /// Unload the NVIDIA kernel modules.
    UnloadNvidiaModules,
    /// Unbind the NVIDIA GPU from its driver and remove it from the bus.
    DetachGpu,
    /// Enable or disable `nvidia-persistenced.service`.
    SetPersistenced { enable: bool },
    /// Rebuild the initramfs.
    RebuildInitramfs,
    /// Remove the cache file and its directory.
    RemoveCache,
}

pub open spec fn when(c: bool, s: Seq<SwitchStep>) -> Seq<SwitchStep> {
    if c {
        s
    } else {
        Seq::<SwitchStep>::empty()
    }
}

/// The steps of a switch, in order.
pub open spec fn switch_plan(target: SwitchTarget, no_reboot: bool) -> Seq<SwitchStep> {
    match target {
        SwitchTarget::Integrated => seq![
            SwitchStep::AcquireLock,
            SwitchStep::EnsureCache,
            SwitchStep::Cleanup,
            SwitchStep::WriteConfig,
        ] + when(
            no_reboot,
            seq![
                SwitchStep::PrepareNoReboot,
                SwitchStep::KillGpuProcesses,
                SwitchStep::UnloadNvidiaModules,
                SwitchStep::DetachGpu,
            ],
        ) + seq![SwitchStep::SetPersistenced { enable: false }] + when(
            !no_reboot,
            seq![SwitchStep::RebuildInitramfs],
        ),
        SwitchTarget::Hybrid => seq![SwitchStep::AcquireLock] + when(
            no_reboot,
            seq![SwitchStep::RescanPci],
        ) + seq![SwitchStep::EnsureCache, SwitchStep::Cleanup] + when(
            no_reboot,
            seq![SwitchStep::PrepareNoReboot, SwitchStep::KillGpuProcesses],
        ) + seq![SwitchStep::SetPersistenced { enable: true }, SwitchStep::WriteConfig] + when(
            !no_reboot,
            seq![SwitchStep::RebuildInitramfs],
        ),
        SwitchTarget::Nvidia => seq![SwitchStep::AcquireLock] + when(
            no_reboot,
            seq![SwitchStep::RescanPci],
        ) + seq![SwitchStep::EnsureCache, SwitchStep::ReadBusId, SwitchStep::Cleanup, SwitchStep::WriteConfig]
            + when(no_reboot, seq![SwitchStep::PrepareNoReboot, SwitchStep::KillGpuProcesses])
            + seq![SwitchStep::SetPersistenced { enable: true }] + when(
            !no_reboot,
            seq![SwitchStep::RebuildInitramfs],
        ),
    }
}

fn push_all(v: &mut Vec<SwitchStep>, items: &[SwitchStep])
    ensures
        final(v)@ == old(v)@ + items@,
{
    let mut i: usize = 0;
    while i < items.len()
        invariant
            i <= items.len(),
            v@ == old(v)@ + items@.subrange(0, i as int),
        decreases items.len() - i,
    {
        v.push(items[i]);
        assert(items@.subrange(0, i + 1) =~= items@.subrange(0, i as int).push(items@[i as int]));
        i = i + 1;
    }
    assert(items@.subrange(0, items.len() as int) =~= items@);
}

/// The steps of a switch to `target`, in order.
pub fn switch_steps(target: SwitchTarget, no_reboot: bool) -> (r: Vec<SwitchStep>)
    ensures
        r@ == switch_plan(target, no_reboot),
{
    let mut r: Vec<SwitchStep> = Vec::new();
    match target {
        SwitchTarget::Integrated => {
            push_all(
                &mut r,
                &[
                    SwitchStep::AcquireLock,
                    SwitchStep::EnsureCache,
                    SwitchStep::Cleanup,
                    SwitchStep::WriteConfig,
                ],
            );
            if no_reboot {
                push_all(
                    &mut r,
                    &[
                        SwitchStep::PrepareNoReboot,
                        SwitchStep::KillGpuProcesses,
                        SwitchStep::UnloadNvidiaModules,
                        SwitchStep::DetachGpu,
                    ],
                );
            }
            r.push(SwitchStep::SetPersistenced { enable: false });
        },
        SwitchTarget::Hybrid => {
            r.push(SwitchStep::AcquireLock);
            if no_reboot {
                r.push(SwitchStep::RescanPci);
            }
            push_all(&mut r, &[SwitchStep::EnsureCache, SwitchStep::Cleanup]);
            if no_reboot {
                push_all(&mut r, &[SwitchStep::PrepareNoReboot, SwitchStep::KillGpuProcesses]);
            }
            push_all(&mut r, &[SwitchStep::SetPersistenced { enable: true }, SwitchStep::WriteConfig]);
        },
        SwitchTarget::Nvidia => {
            r.push(SwitchStep::AcquireLock);
            if no_reboot {
                r.push(SwitchStep::RescanPci);
            }
            push_all(
                &mut r,
                &[
                    SwitchStep::EnsureCache,
                    SwitchStep::ReadBusId,
                    SwitchStep::Cleanup,
                    SwitchStep::WriteConfig,
                ],
            );
            if no_reboot {
                push_all(&mut r, &[SwitchStep::PrepareNoReboot, SwitchStep::KillGpuProcesses]);
            }
            r.push(SwitchStep::SetPersistenced { enable: true });
        },
    }
    if !no_reboot {
        r.push(SwitchStep::RebuildInitramfs);
    }
    assert(r@ =~= switch_plan(target, no_reboot));
    r
}

/// The steps of a reset: the cache is created first when the system is in
/// hybrid mode and has none, then the files of every mode and the cache are
/// removed and the initramfs is rebuilt.
pub open spec fn reset_plan(mode: GpuMode, cache_file_exists: bool) -> Seq<SwitchStep> {
    when(mode == GpuMode::Hybrid && !cache_file_exists, seq![SwitchStep::EnsureCache]) + seq![
        SwitchStep::Cleanup,
        SwitchStep::RemoveCache,
        SwitchStep::RebuildInitramfs,
    ]
}

/// The steps of a reset, in order.
pub fn reset_steps(mode: GpuMode, cache_file_exists: bool) -> (r: Vec<SwitchStep>)
    ensures
        r@ == reset_plan(mode, cache_file_exists),
{
    let mut r: Vec<SwitchStep> = Vec::new();
    if mode == GpuMode::Hybrid && !cache_file_exists {
        r.push(SwitchStep::EnsureCache);
    }
    push_all(&mut r, &[SwitchStep::Cleanup, SwitchStep::RemoveCache, SwitchStep::RebuildInitramfs]);
    assert(r@ =~= reset_plan(mode, cache_file_exists));
    r
}

/// Whether a failure of `step` stops the switch: a lock held by another
/// switch, a display manager that would not stop, or a configuration
/// refused. Failures of the other steps are reported and the switch goes on.
pub open spec fn stops_on_failure(step: SwitchStep) -> bool {
    step == SwitchStep::AcquireLock || step == SwitchStep::PrepareNoReboot || step
        == SwitchStep::WriteConfig
}

/// Whether a failure of `step` stops the switch.
pub fn aborts_on_failure(step: SwitchStep) -> (r: bool)
    ensures
        r == stops_on_failure(step),
{
    match step {
        SwitchStep::AcquireLock | SwitchStep::PrepareNoReboot | SwitchStep::WriteConfig => true,
        _ => false,
    }
}

/// How a switch without reboot clears the graphical stack.
#[derive(Clone, Copy, Debug, PartialEq, Eq, Structural)]
pub enum NoRebootPreparation {
    /// Stop the display manager (and start it again when the switch ends).
    StopDisplayManager,
    /// No display manager is running: end the graphical sessions.
    TerminateSessions,
    /// Nothing graphical runs.
    Nothing,
}

/// A known display manager that is active is stopped; otherwise the
/// graphical sessions, if any, are ended.
pub fn no_reboot_preparation(display_manager_active: bool, graphical_sessions: usize) -> (r:
    NoRebootPreparation)
    ensures
        r == (if display_manager_active {
            NoRebootPreparation::StopDisplayManager
        } else if graphical_sessions > 0 {
            NoRebootPreparation::TerminateSessions
        } else {
            NoRebootPreparation::Nothing
        }),
{
    if display_manager_active {
        NoRebootPreparation::StopDisplayManager
    } else if graphical_sessions > 0 {
        NoRebootPreparation::TerminateSessions
    } else {
        NoRebootPreparation::Nothing
    }
}

/// Number of times `s` occurs in `p`.
pub open spec fn occurrences(p: Seq<SwitchStep>, s: SwitchStep) -> nat
    decreases p.len(),
{
    if p.len() == 0 {
        0
    } else {
        occurrences(p.drop_last(), s) + (if p.last() == s {
            1nat
        } else {
            0nat
        })
    }
}

/// A switch without reboot clears the graphical stack once and kills the
/// processes on the NVIDIA GPU once (a switch with reboot does neither); a
/// switch to hybrid or NVIDIA mode without reboot rescans the PCI bus; and a
/// switch to integrated mode without reboot unloads the NVIDIA modules and
/// then detaches the GPU, after killing its processes. No other switch
/// unloads the modules or detaches the GPU.
#[verifier::spinoff_prover]
pub proof fn lemma_no_reboot_steps(target: SwitchTarget, no_reboot: bool)
    ensures
        occurrences(switch_plan(target, no_reboot), SwitchStep::PrepareNoReboot) == (if no_reboot {
            1nat
        } else {
            0nat
        }),
        occurrences(switch_plan(target, no_reboot), SwitchStep::KillGpuProcesses) == (if no_reboot {
            1nat
        } else {
            0nat
        }),
        occurrences(switch_plan(target, no_reboot), SwitchStep::RescanPci) == (if no_reboot && target
            != SwitchTarget::Integrated {
            1nat
        } else {
            0nat
        }),
        occurrences(switch_plan(target, no_reboot), SwitchStep::UnloadNvidiaModules) == (if no_reboot
            && target == SwitchTarget::Integrated {
            1nat
        } else {
            0nat
        }),
        occurrences(switch_plan(target, no_reboot), SwitchStep::DetachGpu) == (if no_reboot && target
            == SwitchTarget::Integrated {
            1nat
        } else {
            0nat
        }),
        no_reboot && target == SwitchTarget::Integrated ==> ({
            let p = switch_plan(target, no_reboot);
            exists|j: int, k: int, i: int|
                #![trigger p[j], p[k], p[i]]
                0 <= j < k < i && i + 1 < p.len() && p[j] == SwitchStep::PrepareNoReboot && p[k]
                    == SwitchStep::KillGpuProcesses && p[i] == SwitchStep::UnloadNvidiaModules && p[i
                    + 1] == SwitchStep::DetachGpu
        }),
{
    reveal_with_fuel(occurrences, 12);
    let p = switch_plan(target, no_reboot);
    match (target, no_reboot) {
        (SwitchTarget::Integrated, true) => {
            assert(p =~= seq![
                SwitchStep::AcquireLock,
                SwitchStep::EnsureCache,
                SwitchStep::Cleanup,
                SwitchStep::WriteConfig,
                SwitchStep::PrepareNoReboot,
                SwitchStep::KillGpuProcesses,
                SwitchStep::UnloadNvidiaModules,
                SwitchStep::DetachGpu,
                SwitchStep::SetPersistenced { enable: false },
            ]);
            assert(p[4] == SwitchStep::PrepareNoReboot && p[5] == SwitchStep::KillGpuProcesses);
            assert(p[6] == SwitchStep::UnloadNvidiaModules && p[7] == SwitchStep::DetachGpu);
        },
        (SwitchTarget::Integrated, false) => {
            assert(p =~= seq![
                SwitchStep::AcquireLock,
                SwitchStep::EnsureCache,
                SwitchStep::Cleanup,
                SwitchStep::WriteConfig,
                SwitchStep::SetPersistenced { enable: false },
                SwitchStep::RebuildInitramfs,
            ]);
        },
        (SwitchTarget::Hybrid, true) => {
            assert(p =~= seq![
                SwitchStep::AcquireLock,
                SwitchStep::RescanPci,
                SwitchStep::EnsureCache,
                SwitchStep::Cleanup,
                SwitchStep::PrepareNoReboot,
                SwitchStep::KillGpuProcesses,
                SwitchStep::SetPersistenced { enable: true },
                SwitchStep::WriteConfig,
            ]);
        },
        (SwitchTarget::Hybrid, false) => {
            assert(p =~= seq![
                SwitchStep::AcquireLock,
                SwitchStep::EnsureCache,
                SwitchStep::Cleanup,
                SwitchStep::SetPersistenced { enable: true },
                SwitchStep::WriteConfig,
                SwitchStep::RebuildInitramfs,
            ]);
        },
        (SwitchTarget::Nvidia, true) => {
            assert(p =~= seq![
                SwitchStep::AcquireLock,
                SwitchStep::RescanPci,
                SwitchStep::EnsureCache,
                SwitchStep::ReadBusId,
                SwitchStep::Cleanup,
                SwitchStep::WriteConfig,
                SwitchStep::PrepareNoReboot,
                SwitchStep::KillGpuProcesses,
                SwitchStep::SetPersistenced { enable: true },
            ]);
        },
        (SwitchTarget::Nvidia, false) => {
            assert(p =~= seq![
                SwitchStep::AcquireLock,
                SwitchStep::EnsureCache,
                SwitchStep::ReadBusId,
                SwitchStep::Cleanup,
                SwitchStep::WriteConfig,
                SwitchStep::SetPersistenced { enable: true },
                SwitchStep::RebuildInitramfs,
            ]);
        },
    }
}

/// The properties every switch plan has (see `lemma_switch_plan_shape`).
pub open spec fn plan_shape(p: Seq<SwitchStep>, target: SwitchTarget, no_reboot: bool) -> bool {
    &&& p.len() > 0 && p[0] == SwitchStep::AcquireLock
    &&& occurrences(p, SwitchStep::RebuildInitramfs) == (if no_reboot {
        0nat
    } else {
        1nat
    })
    &&& occurrences(p, SwitchStep::WriteConfig) == 1
    &&& exists|i: int, j: int|
        0 <= i < j < p.len() && p[i] == SwitchStep::Cleanup && p[j] == SwitchStep::WriteConfig
    &&& occurrences(p, SwitchStep::SetPersistenced { enable: target != SwitchTarget::Integrated }) == 1
    &&& occurrences(p, SwitchStep::SetPersistenced { enable: target == SwitchTarget::Integrated }) == 0
}

#[verifier::spinoff_prover]
proof fn lemma_integrated_plan(no_reboot: bool)
    ensures
        plan_shape(switch_plan(SwitchTarget::Integrated, no_reboot), SwitchTarget::Integrated, no_reboot),
{
    reveal_with_fuel(occurrences, 10);
    let p = switch_plan(SwitchTarget::Integrated, no_reboot);
    if no_reboot {
        assert(p =~= seq![
            SwitchStep::AcquireLock,
            SwitchStep::EnsureCache,
            SwitchStep::Cleanup,
            SwitchStep::WriteConfig,
            SwitchStep::PrepareNoReboot,
            SwitchStep::KillGpuProcesses,
            SwitchStep::UnloadNvidiaModules,
            SwitchStep::DetachGpu,
            SwitchStep::SetPersistenced { enable: false },
        ]);
        assert(p[8] == SwitchStep::SetPersistenced { enable: false });
    } else {
        assert(p =~= seq![
            SwitchStep::AcquireLock,
            SwitchStep::EnsureCache,
            SwitchStep::Cleanup,
            SwitchStep::WriteConfig,
            SwitchStep::SetPersistenced { enable: false },
            SwitchStep::RebuildInitramfs,
        ]);
        assert(p[4] == SwitchStep::SetPersistenced { enable: false });
        assert(p[5] == SwitchStep::RebuildInitramfs);
    }
    assert(p[2] == SwitchStep::Cleanup && p[3] == SwitchStep::WriteConfig);
}

#[verifier::spinoff_prover]
proof fn lemma_hybrid_plan(no_reboot: bool)
    ensures
        plan_shape(switch_plan(SwitchTarget::Hybrid, no_reboot), SwitchTarget::Hybrid, no_reboot),
{
    reveal_with_fuel(occurrences, 10);
    let p = switch_plan(SwitchTarget::Hybrid, no_reboot);
    if no_reboot {
        assert(p =~= seq![
            SwitchStep::AcquireLock,
            SwitchStep::RescanPci,
            SwitchStep::EnsureCache,
            SwitchStep::Cleanup,
            SwitchStep::PrepareNoReboot,
            SwitchStep::KillGpuProcesses,
            SwitchStep::SetPersistenced { enable: true },
            SwitchStep::WriteConfig,
        ]);
        assert(p[3] == SwitchStep::Cleanup && p[7] == SwitchStep::WriteConfig);
        assert(p[6] == SwitchStep::SetPersistenced { enable: true });
    } else {
        assert(p =~= seq![
            SwitchStep::AcquireLock,
            SwitchStep::EnsureCache,
            SwitchStep::Cleanup,
            SwitchStep::SetPersistenced { enable: true },
            SwitchStep::WriteConfig,
            SwitchStep::RebuildInitramfs,
        ]);
        assert(p[2] == SwitchStep::Cleanup && p[4] == SwitchStep::WriteConfig);
        assert(p[3] == SwitchStep::SetPersistenced { enable: true });
        assert(p[5] == SwitchStep::RebuildInitramfs);
    }
}

#[verifier::spinoff_prover]
proof fn lemma_nvidia_plan(no_reboot: bool)
    ensures
        plan_shape(switch_plan(SwitchTarget::Nvidia, no_reboot), SwitchTarget::Nvidia, no_reboot),
{
    reveal_with_fuel(occurrences, 10);
    let p = switch_plan(SwitchTarget::Nvidia, no_reboot);
    if no_reboot {
        assert(p =~= seq![
            SwitchStep::AcquireLock,
            SwitchStep::RescanPci,
            SwitchStep::EnsureCache,
            SwitchStep::ReadBusId,
            SwitchStep::Cleanup,
            SwitchStep::WriteConfig,
            SwitchStep::PrepareNoReboot,
            SwitchStep::KillGpuProcesses,
            SwitchStep::SetPersistenced { enable: true },
        ]);
        assert(p[4] == SwitchStep::Cleanup && p[5] == SwitchStep::WriteConfig);
        assert(p[8] == SwitchStep::SetPersistenced { enable: true });
    } else {
        assert(p =~= seq![
            SwitchStep::AcquireLock,
            SwitchStep::EnsureCache,
            SwitchStep::ReadBusId,
            SwitchStep::Cleanup,
            SwitchStep::WriteConfig,
            SwitchStep::SetPersistenced { enable: true },
            SwitchStep::RebuildInitramfs,
        ]);
        assert(p[3] == SwitchStep::Cleanup && p[4] == SwitchStep::WriteConfig);
        assert(p[5] == SwitchStep::SetPersistenced { enable: true });
        assert(p[6] == SwitchStep::RebuildInitramfs);
    }
}

/// Every switch takes the lock first; it rebuilds the initramfs exactly
/// when a reboot is expected; it writes the mode's files once, after the
/// files of all modes were removed; and it enables nvidia-persistenced,
/// except for integrated mode, where it disables it.
pub proof fn lemma_switch_plan_shape(target: SwitchTarget, no_reboot: bool)
    ensures
        plan_shape(switch_plan(target, no_reboot), target, no_reboot),
{
    match target {
        SwitchTarget::Integrated => lemma_integrated_plan(no_reboot),
        SwitchTarget::Hybrid => lemma_hybrid_plan(no_reboot),
        SwitchTarget::Nvidia => lemma_nvidia_plan(no_reboot),
    }
}

} // verus!
