//! Output configuration for one run: a title taken from the local
//! wall clock, and the directory and file names derived from it.

use vstd::prelude::*;
use vstd::string::StringExecFns;

verus! {

/// Where a run's outputs go: a per-run directory named after the
/// moment the run started, a data file name inside it, and a figure
/// name and form.
pub struct Config {
    /// Base name for the data files of the run.
    pub prog_name: String,
    /// The per-run output directory.
    pub dir_name: String,
    /// The run's title: its starting moment.
    pub title: String,
    /// The figure file extension.
    pub form: String,
    /// Base name for the figures of the run.
    pub specify_fig: String,
}

/// Relies on `chrono::Local::now`: the local wall-clock time,
/// rendered as year, month, day, a dash, hour, minute, second.
/// Nothing is promised of the result: it depends on the clock.
#[verifier::external_body]
fn local_timestamp() -> String {
    chrono::Local::now().format("%Y%m%d-%H%M%S").to_string()
}

impl Config {
    /// The configuration of a run with the given title: outputs go
    /// under `workspace/<title>`, data to `ode` inside it, figures to
    /// `img` inside it, as `.png` files.
    pub fn with_title(title: String) -> (c: Config)
        ensures
            c.title@ == title@,
            c.dir_name@ == "workspace/"@ + title@,
            c.prog_name@ == c.dir_name@ + "/ode"@,
            c.form@ == ".png"@,
            c.specify_fig@ == c.dir_name@ + "/img"@,
    {
        let mut dir_name = String::new();
        dir_name.append("workspace/");
        dir_name.append(title.as_str());
        proof {
            assert(dir_name@ =~= "workspace/"@ + title@);
        }
        let mut prog_name = dir_name.clone();
        prog_name.append("/ode");
        let mut specify_fig = dir_name.clone();
        specify_fig.append("/img");
        let mut form = String::new();
        form.append(".png");
        proof {
            assert(form@ =~= ".png"@);
        }
        Config { prog_name, dir_name, title, form, specify_fig }
    }

    /// The configuration of a run starting now: its title is the
    /// local timestamp, and every path is derived from it as
    /// [`Config::with_title`] says.
    pub fn new() -> (r: Result<Config, &'static str>)
        ensures
            r is Ok,
            r matches Ok(c) ==> c.dir_name@ == "workspace/"@ + c.title@ && c.prog_name@
                == c.dir_name@ + "/ode"@ && c.form@ == ".png"@ && c.specify_fig@ == c.dir_name@
                + "/img"@,
    {
        let title = local_timestamp();
        Ok(Config::with_title(title))
    }
}

} // verus!
