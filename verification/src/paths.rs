//! Where a run writes its reports.

use vstd::prelude::*;
use crate::config::{Args, ArgsError, ArgsErrorView, opt_chars};

verus! {

/// The path that `std::path::Path::join` makes of `base` and `name`.
pub uninterp spec fn joined_path(base: Seq<char>, name: Seq<char>) -> Seq<char>;

/// The path that `std::path::PathBuf::set_extension` makes of `path` and
/// `extension`.
pub uninterp spec fn path_with_extension(path: Seq<char>, extension: Seq<char>) -> Seq<char>;

/// Calls `std::path::Path::join`; claims only that the result is
/// `joined_path` of the two paths (it depends on them alone). Both inputs are
/// UTF-8, so the conversion back to a `String` loses nothing.
#[verifier::external_body]
fn join_path(base: &str, name: &str) -> (joined: String)
    ensures
        joined@ == joined_path(base@, name@),
{
    std::path::Path::new(base).join(name).to_string_lossy().into_owned()
}

/// Calls `std::path::PathBuf::set_extension`; claims only that the result is
/// `path_with_extension` of the path and the extension. The call panics on
/// an extension that holds a path separator, so none is allowed here.
#[verifier::external_body]
fn set_path_extension(path: &str, extension: &str) -> (changed: String)
    requires
        !extension@.contains('/'),
        !extension@.contains('\\'),
    ensures
        changed@ == path_with_extension(path@, extension@),
{
    let mut buf = std::path::PathBuf::from(path);
    buf.set_extension(extension);
    buf.to_string_lossy().into_owned()
}

/// Where the HTML report goes: none with `--no-html`; otherwise the
/// `--export` path when given, or else next to the JSON report, with
/// extension `html`.
pub open spec fn spec_html_output_path(export: Option<Seq<char>>, no_html: bool, output: Option<Seq<char>>) -> Option<Seq<char>> {
    if no_html {
        None
    } else {
        match export {
            Some(path) => Some(path),
            None => match output {
                Some(path) => Some(path_with_extension(path, "html"@)),
                None => None,
            },
        }
    }
}

/// The path of the HTML report, if one is to be written.
pub fn html_output_path(args: &Args) -> (path: Option<String>)
    ensures
        opt_chars(path) == spec_html_output_path(opt_chars(args.export), args.no_html, opt_chars(args.output)),
{
    if args.no_html {
        return None;
    }
    if let Some(path) = &args.export {
        return Some(path.clone());
    }
    proof {
        reveal_strlit("html");
    }
    match &args.output {
        Some(path) => Some(set_path_extension(path.as_str(), "html")),
        None => None,
    }
}

/// Whether a single run has a report to write (JSON or HTML), and so should
/// capture query plans.
pub fn wants_report(args: &Args) -> (wanted: bool)
    ensures
        wanted == (args.output is Some || spec_html_output_path(opt_chars(args.export), args.no_html, opt_chars(args.output)) is Some),
{
    args.output.is_some() || html_output_path(args).is_some()
}

/// Whether a run name can name a directory under `runs/`: not empty, and
/// without `/` or `\`.
pub open spec fn valid_run_name(name: Seq<char>) -> bool {
    name.len() > 0 && !name.contains('/') && !name.contains('\\')
}

fn check_run_name(name: &str) -> (valid: bool)
    ensures
        valid == valid_run_name(name@),
{
    let mut any = false;
    let mut clean = true;
    for c in it: name.chars()
        invariant
            it.seq() == name@,
            any == (it.index() > 0),
            clean == forall|j: int| 0 <= j < it.index() ==> name@[j] != '/' && name@[j] != '\\',
    {
        if c == '/' || c == '\\' {
            clean = false;
        }
        any = true;
    }
    if !clean {
        assert(name@.contains('/') || name@.contains('\\')) by {
            let j = choose|j: int| 0 <= j < name@.len() && !(name@[j] != '/' && name@[j] != '\\');
            assert(name@[j] == '/' || name@[j] == '\\');
        }
    }
    any && clean
}

/// Applies `--run NAME`: checks the name, and fills in the JSON and HTML
/// report paths under `runs/NAME` where they were not given (the HTML one
/// only without `--no-html`). Returns the directory that must exist for the
/// reports, or `None` without `--run`. A refused name leaves the settings
/// unchanged.
pub fn resolve_run_paths(args: &mut Args) -> (result: Result<Option<String>, ArgsError>)
    ensures
        match opt_chars(old(args).run) {
            None => result matches Ok(None) && final(args)@ == old(args)@,
            Some(name) => if !valid_run_name(name) {
                result matches Err(e) && e@ == ArgsErrorView::InvalidRunName && final(args)@ == old(args)@
            } else {
                result matches Ok(Some(dir)) && dir@ == joined_path("runs"@, name)
                    && final(args)@ == (crate::config::ArgsView {
                        output: match opt_chars(old(args).output) {
                            Some(o) => Some(o),
                            None => Some(joined_path(joined_path("runs"@, name), "report.json"@)),
                        },
                        export: if old(args).export is None && !old(args).no_html {
                            Some(joined_path(joined_path("runs"@, name), "report.html"@))
                        } else {
                            opt_chars(old(args).export)
                        },
                        ..old(args)@
                    })
            },
        },
{
    let dir = match &args.run {
        None => return Ok(None),
        Some(name) => {
            if !check_run_name(name.as_str()) {
                return Err(ArgsError::InvalidRunName);
            }
            join_path("runs", name.as_str())
        },
    };
    if args.output.is_none() {
        args.output = Some(join_path(dir.as_str(), "report.json"));
    }
    if args.export.is_none() && !args.no_html {
        args.export = Some(join_path(dir.as_str(), "report.html"));
    }
    Ok(Some(dir))
}

} // verus!
