//! What the daemon needs to know of the classifier's object file and of the
//! commands that attach it: names and arguments, nothing that runs.

use crate::maps::MapTable;
use crate::text::views;
use vstd::prelude::*;
use vstd::string::StringExecFns;

verus! {

pub use crate::types::XdpMode;

/// The name of the classifier's program in its object file.
pub const PROGRAM_NAME: &'static str = "xdp_filter_func";

/// The section of the object file that holds the program.
pub const PROGRAM_SECTION: &'static str = "xdp";

/// The name of a map in the classifier's object file.
pub open spec fn map_name_of(table: MapTable) -> Seq<char> {
    match table {
        MapTable::FilterRules => "filter_rules"@,
        MapTable::RedirectMap => "redirect_map"@,
        MapTable::StatsMap => "stats_map"@,
    }
}

/// The name of a map in the classifier's object file.
pub fn map_name(table: MapTable) -> (r: &'static str)
    ensures
        r@ == map_name_of(table),
{
    match table {
        MapTable::FilterRules => "filter_rules",
        MapTable::RedirectMap => "redirect_map",
        MapTable::StatsMap => "stats_map",
    }
}

/// Says where the classifier's object file is, before it is opened.
#[derive(Debug, Clone, PartialEq, Eq)]
pub struct XdpFilterSkelBuilder {
    obj_path: Option<String>,
}

impl XdpFilterSkelBuilder {
    /// The path that was given, if one was.
    pub closed spec fn path(&self) -> Option<Seq<char>> {
        match self.obj_path {
            Some(path) => Some(path@),
            None => None,
        }
    }

    /// A builder that knows no path yet.
    pub fn new() -> (r: XdpFilterSkelBuilder)
        ensures
            r.path() is None,
    {
        XdpFilterSkelBuilder { obj_path: None }
    }

    /// The builder with `path` as the place of the object file.
    pub fn obj_path(self, path: &str) -> (r: XdpFilterSkelBuilder)
        ensures
            r.path() == Some(path@),
    {
        XdpFilterSkelBuilder { obj_path: Some(String::from_str(path)) }
    }

    /// The path that was given, if one was.
    pub fn into_path(self) -> (r: Option<String>)
        ensures
            match r {
                Some(path) => self.path() == Some(path@),
                None => self.path() is None,
            },
    {
        self.obj_path
    }
}

/// The arguments of `ip` that load the program of the object file
/// `obj_path` on `interface`.
pub fn attach_command<'a>(interface: &'a str, obj_path: &'a str) -> (r: Vec<&'a str>)
    ensures
        views(r@) == seq![
            "link"@,
            "set"@,
            "dev"@,
            interface@,
            "xdp"@,
            "obj"@,
            obj_path@,
            "sec"@,
            "xdp"@,
        ],
{
    let mut args: Vec<&str> = Vec::new();
    args.push("link");
    args.push("set");
    args.push("dev");
    args.push(interface);
    args.push("xdp");
    args.push("obj");
    args.push(obj_path);
    args.push("sec");
    args.push(PROGRAM_SECTION);
    assert(views(args@) =~= seq![
        "link"@,
        "set"@,
        "dev"@,
        interface@,
        "xdp"@,
        "obj"@,
        obj_path@,
        "sec"@,
        "xdp"@,
    ]);
    args
}

/// The arguments of `ip` that take the program off `interface`.
pub fn detach_command<'a>(interface: &'a str) -> (r: Vec<&'a str>)
    ensures
        views(r@) == seq!["link"@, "set"@, "dev"@, interface@, "xdp"@, "off"@],
{
    let mut args: Vec<&str> = Vec::new();
    args.push("link");
    args.push("set");
    args.push("dev");
    args.push(interface);
    args.push("xdp");
    args.push("off");
    assert(views(args@) =~= seq!["link"@, "set"@, "dev"@, interface@, "xdp"@, "off"@]);
    args
}

/// The arguments of `ip` that tell whether `interface` exists.
pub fn check_command<'a>(interface: &'a str) -> (r: Vec<&'a str>)
    ensures
        views(r@) == seq!["link"@, "show"@, "dev"@, interface@],
{
    let mut args: Vec<&str> = Vec::new();
    args.push("link");
    args.push("show");
    args.push("dev");
    args.push(interface);
    assert(views(args@) =~= seq!["link"@, "show"@, "dev"@, interface@]);
    args
}

} // verus!
