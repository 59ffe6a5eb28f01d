//! Configuration of the on-device daemon: how command-line flags, the TOML
//! file and the defaults combine (the command line overrides the file, the
//! file overrides the defaults), and which combinations are refused.
//!
//! This covers the settings that are plain values; the mapping settings
//! (orientation, fit, aspect ratio, tilt correction) are merged the same way
//! by the daemon next to these.

use vstd::prelude::*;

verus! {

/// Subcommands of the daemon.
pub enum Command {
    /// Dump decoded pen or touch frames for debugging (no USB gadget
    /// involved); `device` is "pen" or "touch".
    Dump { device: String },
}

/// Per-device CLI flags win, then the deprecated `--grab-input` pair, then
/// the file (per-device key, falling back to the `grab_input` alias), then
/// the default of grabbing.
pub fn resolve_grab(cli_yes: bool, cli_no: bool, alias_yes: bool, alias_no: bool, file: Option<bool>) -> (r: bool)
    ensures
        r == if cli_yes {
            true
        } else if cli_no {
            false
        } else if alias_yes {
            true
        } else if alias_no {
            false
        } else {
            match file {
                Some(b) => b,
                None => true,
            }
        },
{
    if cli_yes {
        return true;
    }
    if cli_no {
        return false;
    }
    if alias_yes {
        return true;
    }
    if alias_no {
        return false;
    }
    match file {
        Some(b) => b,
        None => true,
    }
}

/// The first of two optional values that is present, else `default`.
pub open spec fn first_of<T>(cli: Option<T>, file: Option<T>, default: T) -> T {
    match cli {
        Some(v) => v,
        None => match file {
            Some(v) => v,
            None => default,
        },
    }
}

/// The plain-valued command-line settings.
pub struct CliSwitches {
    pub pen_device: Option<String>,
    pub touch_device: Option<String>,
    pub no_pen: bool,
    pub no_touch: bool,
    pub grab_pen: bool,
    pub no_grab_pen: bool,
    pub grab_touch: bool,
    pub no_grab_touch: bool,
    pub grab_input: bool,
    pub no_grab_input: bool,
    pub no_palm_rejection: bool,
    pub palm_grace_ms: Option<u64>,
    pub usb_product: Option<String>,
    pub usb_manufacturer: Option<String>,
}

/// The plain-valued settings of the configuration file; absent keys are
/// `None`.
pub struct FileSwitches {
    pub pen_device: Option<String>,
    pub touch_device: Option<String>,
    pub pen: Option<bool>,
    pub touch: Option<bool>,
    pub grab_pen: Option<bool>,
    pub grab_touch: Option<bool>,
    /// Deprecated alias for both grab_pen and grab_touch.
    pub grab_input: Option<bool>,
    pub palm_rejection: Option<bool>,
    pub palm_grace_ms: Option<u64>,
    pub usb_product: Option<String>,
    pub usb_manufacturer: Option<String>,
}

/// The merged plain-valued settings.
pub struct Switches {
    pub pen_device: String,
    pub touch_device: String,
    /// Forward the pen / touch panel to the host. Independent of grabbing.
    pub pen: bool,
    pub touch: bool,
    /// Grab the pen / touch node away from xochitl. Independent of forwarding.
    pub grab_pen: bool,
    pub grab_touch: bool,
    pub palm_rejection: bool,
    pub palm_grace_ms: u64,
    /// Gadget-wide USB strings to apply while the HID function is attached.
    pub usb_product: Option<String>,
    pub usb_manufacturer: Option<String>,
}

/// Palm-rejection grace period when neither the command line nor the file
/// sets one.
pub const DEFAULT_PALM_GRACE_MS: u64 = 500;

pub open spec fn opt_view(o: Option<String>) -> Option<Seq<char>> {
    match o {
        Some(s) => Some(s@),
        None => None,
    }
}

fn first_string(cli: Option<String>, file: Option<String>, default: String) -> (r: String)
    ensures
        r@ == first_of(opt_view(cli), opt_view(file), default@),
{
    match cli {
        Some(s) => s,
        None => match file {
            Some(s) => s,
            None => default,
        },
    }
}

fn either_string(cli: Option<String>, file: Option<String>) -> (r: Option<String>)
    ensures
        opt_view(r) == match cli {
            Some(s) => Some(s@),
            None => opt_view(file),
        },
{
    match cli {
        Some(s) => Some(s),
        None => file,
    }
}

/// Merge the command line, the file and the device's default input paths.
/// A forwarding or palm-rejection switch is on unless the command line
/// turns it off or the file sets it off.
pub fn merge_switches(cli: CliSwitches, file: FileSwitches, default_pen_device: String, default_touch_device: String) -> (r: Switches)
    ensures
        r.pen_device@ == first_of(opt_view(cli.pen_device), opt_view(file.pen_device), default_pen_device@),
        r.touch_device@ == first_of(opt_view(cli.touch_device), opt_view(file.touch_device), default_touch_device@),
        r.pen == (!cli.no_pen && first_of(None, file.pen, true)),
        r.touch == (!cli.no_touch && first_of(None, file.touch, true)),
        r.grab_pen == (if cli.grab_pen {
            true
        } else if cli.no_grab_pen {
            false
        } else if cli.grab_input {
            true
        } else if cli.no_grab_input {
            false
        } else {
            first_of(file.grab_pen, file.grab_input, true)
        }),
        r.grab_touch == (if cli.grab_touch {
            true
        } else if cli.no_grab_touch {
            false
        } else if cli.grab_input {
            true
        } else if cli.no_grab_input {
            false
        } else {
            first_of(file.grab_touch, file.grab_input, true)
        }),
        r.palm_rejection == (!cli.no_palm_rejection && first_of(None, file.palm_rejection, true)),
        r.palm_grace_ms == first_of(cli.palm_grace_ms, file.palm_grace_ms, DEFAULT_PALM_GRACE_MS),
        opt_view(r.usb_product) == match cli.usb_product {
            Some(s) => Some(s@),
            None => opt_view(file.usb_product),
        },
        opt_view(r.usb_manufacturer) == match cli.usb_manufacturer {
            Some(s) => Some(s@),
            None => opt_view(file.usb_manufacturer),
        },
{
    let file_grab_pen = match file.grab_pen {
        Some(b) => Some(b),
        None => file.grab_input,
    };
    let file_grab_touch = match file.grab_touch {
        Some(b) => Some(b),
        None => file.grab_input,
    };
    Switches {
        pen_device: first_string(cli.pen_device, file.pen_device, default_pen_device),
        touch_device: first_string(cli.touch_device, file.touch_device, default_touch_device),
        pen: !cli.no_pen && match file.pen {
            Some(b) => b,
            None => true,
        },
        touch: !cli.no_touch && match file.touch {
            Some(b) => b,
            None => true,
        },
        grab_pen: resolve_grab(
            cli.grab_pen,
            cli.no_grab_pen,
            cli.grab_input,
            cli.no_grab_input,
            file_grab_pen,
        ),
        grab_touch: resolve_grab(
            cli.grab_touch,
            cli.no_grab_touch,
            cli.grab_input,
            cli.no_grab_input,
            file_grab_touch,
        ),
        palm_rejection: !cli.no_palm_rejection && match file.palm_rejection {
            Some(b) => b,
            None => true,
        },
        palm_grace_ms: match cli.palm_grace_ms {
            Some(ms) => ms,
            None => match file.palm_grace_ms {
                Some(ms) => ms,
                None => DEFAULT_PALM_GRACE_MS,
            },
        },
        usb_product: either_string(cli.usb_product, file.usb_product),
        usb_manufacturer: either_string(cli.usb_manufacturer, file.usb_manufacturer),
    }
}

/// Why a merged configuration is refused.
#[derive(Debug, Clone, Copy, PartialEq, Eq, Structural)]
pub enum ConfigError {
    /// Both pen and touch forwarding are off.
    NothingToForward,
    /// Aspect ratio and resolution describe the same target two ways.
    AspectRatioAndResolution,
    /// A fit other than fill needs a target shape.
    FitNeedsTarget,
}

impl ConfigError {
    /// The message the daemon prints.
    pub fn message(&self) -> (r: &'static str)
        ensures
            *self == ConfigError::NothingToForward ==> r@
                == "Nothing to forward: both pen and touch are disabled"@,
            *self == ConfigError::AspectRatioAndResolution ==> r@
                == "Cannot set both aspect_ratio and resolution"@,
            *self == ConfigError::FitNeedsTarget ==> r@
                == "--fit (other than fill) requires either --aspect-ratio or --resolution"@,
    {
        match self {
            ConfigError::NothingToForward => "Nothing to forward: both pen and touch are disabled",
            ConfigError::AspectRatioAndResolution => "Cannot set both aspect_ratio and resolution",
            ConfigError::FitNeedsTarget => "--fit (other than fill) requires either --aspect-ratio or --resolution",
        }
    }
}

/// Refuse a configuration that forwards nothing, that sets both an aspect
/// ratio and a resolution (the command line rejects that, the file cannot),
/// or whose fit is not fill without a target shape; the checks apply in that
/// order.
pub fn validate(pen: bool, touch: bool, has_aspect_ratio: bool, has_resolution: bool, fit_is_fill: bool) -> (r: Result<(), ConfigError>)
    ensures
        r == if !pen && !touch {
            Err(ConfigError::NothingToForward)
        } else if has_aspect_ratio && has_resolution {
            Err(ConfigError::AspectRatioAndResolution)
        } else if !fit_is_fill && !has_aspect_ratio && !has_resolution {
            Err(ConfigError::FitNeedsTarget)
        } else {
            Ok(())
        },
{
    if !pen && !touch {
        return Err(ConfigError::NothingToForward);
    }
    if has_aspect_ratio && has_resolution {
        return Err(ConfigError::AspectRatioAndResolution);
    }
    if !fit_is_fill && !has_aspect_ratio && !has_resolution {
        return Err(ConfigError::FitNeedsTarget);
    }
    Ok(())
}

} // verus!
