//! The commands that the tool accepts, as plain values.
use vstd::prelude::*;

verus! {

/// GPU management commands.
#[derive(Debug)]
pub enum GpuCommands {
    /// Query the current graphics mode
    Query,
    /// Switch to integrated graphics
    Integrated { no_reboot: bool },
    /// Switch to hybrid graphics; `rtd3` sets up PCI-Express Runtime D3
    /// power management (0, 1, 2, 3)
    Hybrid { rtd3: Option<u8>, use_nvidia_current: bool, no_reboot: bool },
    /// Switch to NVIDIA graphics
    Nvidia {
        dm: Option<String>,
        force_comp: bool,
        coolbits: Option<u32>,
        use_nvidia_current: bool,
        wayland: bool,
        no_reboot: bool,
    },
    /// Revert changes made by lapctl
    Reset,
    /// Restore default sddm Xsetup file
    ResetSddm,
    /// Create cache used by lapctl (hybrid mode only)
    CacheCreate,
    /// Delete cache created by lapctl
    CacheDelete,
    /// Show cache created by lapctl
    CacheQuery,
    /// Run an application on the discrete GPU (requires hybrid mode)
    Run { command: Vec<String> },
    /// Show the discrete GPU's power state
    Power,
}

/// `GpuCommands` with its strings as character sequences.
pub enum GpuCommandsView {
    Query,
    Integrated { no_reboot: bool },
    Hybrid { rtd3: Option<u8>, use_nvidia_current: bool, no_reboot: bool },
    Nvidia {
        dm: Option<Seq<char>>,
        force_comp: bool,
        coolbits: Option<u32>,
        use_nvidia_current: bool,
        wayland: bool,
        no_reboot: bool,
    },
    Reset,
    ResetSddm,
    CacheCreate,
    CacheDelete,
    CacheQuery,
    Run { command: Seq<Seq<char>> },
    Power,
}

impl View for GpuCommands {
    type V = GpuCommandsView;

    open spec fn view(&self) -> GpuCommandsView {
        match self {
            GpuCommands::Query => GpuCommandsView::Query,
            GpuCommands::Integrated { no_reboot } => GpuCommandsView::Integrated {
                no_reboot: *no_reboot,
            },
            GpuCommands::Hybrid { rtd3, use_nvidia_current, no_reboot } => GpuCommandsView::Hybrid {
                rtd3: *rtd3,
                use_nvidia_current: *use_nvidia_current,
                no_reboot: *no_reboot,
            },
            GpuCommands::Nvidia {
                dm,
                force_comp,
                coolbits,
                use_nvidia_current,
                wayland,
                no_reboot,
            } => GpuCommandsView::Nvidia {
                dm: dm.deep_view(),
                force_comp: *force_comp,
                coolbits: *coolbits,
                use_nvidia_current: *use_nvidia_current,
                wayland: *wayland,
                no_reboot: *no_reboot,
            },
            GpuCommands::Reset => GpuCommandsView::Reset,
            GpuCommands::ResetSddm => GpuCommandsView::ResetSddm,
            GpuCommands::CacheCreate => GpuCommandsView::CacheCreate,
            GpuCommands::CacheDelete => GpuCommandsView::CacheDelete,
            GpuCommands::CacheQuery => GpuCommandsView::CacheQuery,
            GpuCommands::Run { command } => GpuCommandsView::Run { command: command.deep_view() },
            GpuCommands::Power => GpuCommandsView::Power,
        }
    }
}

/// Power management commands.
#[derive(Clone, Copy, Debug, PartialEq, Eq, Structural)]
pub enum PowerCommands {
    /// Set power profile to performance
    Performance,
    /// Set power profile to balanced
    Balanced,
    /// Set power profile to battery saver
    BatterySave,
    /// Set CPU TDP limit (in Watts)
    LimitTdp { watts: u32 },
}

/// Cooling and thermal management commands.
#[derive(Clone, Copy, Debug, PartialEq, Eq, Structural)]
pub enum CoolingCommands {
    /// Set extreme performance fan/thermal mode
    Performance,
    /// Set balanced/intelligent cooling mode
    Balanced,
    /// Set quiet/battery saving fan mode
    Quiet,
}

/// Battery management commands.
#[derive(Clone, Copy, Debug, PartialEq, Eq, Structural)]
pub enum BatteryCommands {
    /// Set the battery charging limit (e.g., 80)
    Limit { percent: u8 },
    /// Show current battery status
    Status,
}

/// Touchpad management commands.
#[derive(Clone, Copy, Debug, PartialEq, Eq, Structural)]
pub enum TouchpadCommands {
    /// Enable the touchpad
    Enable,
    /// Disable the touchpad
    Disable,
}

} // verus!
