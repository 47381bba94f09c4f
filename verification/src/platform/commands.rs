//! The file and launch commands of the command line: what each one does with
//! its arguments.  The shell operations themselves are performed by the
//! caller.

use vstd::prelude::*;
use crate::command::{
    command_spec, command_spec_aliased, framed, join_from, joined, prefixed, views, CommandSpec,
};
use crate::text::lit;

verus! {

/// What a command that takes one path does with its arguments.
#[derive(Debug)]
pub enum PathCommandPlan {
    /// No path was given; the text tells how to call the command.
    Usage(String),
    /// Act on this path, the arguments joined by spaces.
    Run(String),
}

/// The plan of a path command: the usage text when `args` is empty, else the
/// arguments joined by single spaces.
pub open spec fn path_plan_of(args: Seq<Seq<char>>, usage: Seq<char>, r: PathCommandPlan) -> bool {
    if args.len() == 0 {
        r matches PathCommandPlan::Usage(u) && u@ == usage
    } else {
        r matches PathCommandPlan::Run(p) && p@ == joined(args, " "@)
    }
}

fn path_plan(args: &[String], usage: &str) -> (r: PathCommandPlan)
    ensures
        path_plan_of(views(args@), usage@, r),
{
    if args.len() == 0 {
        PathCommandPlan::Usage(lit(usage))
    } else {
        let p = join_from(args, 0, " ");
        assert(views(args@).subrange(0, args@.len() as int) =~= views(args@));
        PathCommandPlan::Run(p)
    }
}

/// `open <path>`: shows a path in the file manager.
pub struct OpenCommand;

impl OpenCommand {
    /// Name, description and usage.
    pub fn spec(&self) -> (r: CommandSpec)
        ensures
            r.name@ == "open"@,
            r.description@ == "在文件管理器中打开路径"@,
            r.aliases@.len() == 0,
            r.usage@ == "open <path>"@,
    {
        command_spec("open", "在文件管理器中打开路径", "open <path>")
    }

    /// The path to open, or the usage text.
    pub fn plan(&self, args: &[String]) -> (r: PathCommandPlan)
        ensures
            path_plan_of(views(args@), "用法：open <path>"@, r),
    {
        path_plan(args, "用法：open <path>")
    }

    /// The reply once `path` was opened.
    pub fn done_message(&self, path: &str) -> (r: String)
        ensures
            r@ == "已打开 "@ + path@,
    {
        let r = prefixed("已打开 ", path);
        r
    }
}

/// `open-location <path>`: opens the folder that holds a path.
pub struct OpenLocationCommand;

impl OpenLocationCommand {
    /// Name, description and usage.
    pub fn spec(&self) -> (r: CommandSpec)
        ensures
            r.name@ == "open-location"@,
            r.description@ == "打开文件所在目录"@,
            r.aliases@.len() == 0,
            r.usage@ == "open-location <path>"@,
    {
        command_spec("open-location", "打开文件所在目录", "open-location <path>")
    }

    /// The path whose folder to open, or the usage text.
    pub fn plan(&self, args: &[String]) -> (r: PathCommandPlan)
        ensures
            path_plan_of(views(args@), "用法：open-location <path>"@, r),
    {
        path_plan(args, "用法：open-location <path>")
    }

    /// The reply once the folder of `path` was opened.
    pub fn done_message(&self, path: &str) -> (r: String)
        ensures
            r@ == "已打开 "@ + path@ + " 的所在目录"@,
    {
        framed("已打开 ", path, " 的所在目录")
    }
}

/// `delete-file <path>`: moves a file to the recycle bin.
pub struct DeleteFileCommand;

impl DeleteFileCommand {
    /// Name, description and usage.
    pub fn spec(&self) -> (r: CommandSpec)
        ensures
            r.name@ == "delete-file"@,
            r.description@ == "删除文件到回收站"@,
            r.aliases@.len() == 0,
            r.usage@ == "delete-file <path>"@,
    {
        command_spec("delete-file", "删除文件到回收站", "delete-file <path>")
    }

    /// The path to delete, or the usage text.
    pub fn plan(&self, args: &[String]) -> (r: PathCommandPlan)
        ensures
            path_plan_of(views(args@), "用法：delete-file <path>"@, r),
    {
        path_plan(args, "用法：delete-file <path>")
    }

    /// The reply once `path` was deleted.
    pub fn done_message(&self, path: &str) -> (r: String)
        ensures
            r@ == "已删除 "@ + path@,
    {
        let r = prefixed("已删除 ", path);
        r
    }
}

/// `show-properties <path>`: shows the properties dialog of a file.
pub struct ShowPropertiesCommand;

impl ShowPropertiesCommand {
    /// Name, description and usage.
    pub fn spec(&self) -> (r: CommandSpec)
        ensures
            r.name@ == "show-properties"@,
            r.description@ == "显示文件属性"@,
            r.aliases@.len() == 0,
            r.usage@ == "show-properties <path>"@,
    {
        command_spec("show-properties", "显示文件属性", "show-properties <path>")
    }

    /// The path whose properties to show, or the usage text.
    pub fn plan(&self, args: &[String]) -> (r: PathCommandPlan)
        ensures
            path_plan_of(views(args@), "用法：show-properties <path>"@, r),
    {
        path_plan(args, "用法：show-properties <path>")
    }

    /// The reply once the properties of `path` were shown.
    pub fn done_message(&self, path: &str) -> (r: String)
        ensures
            r@ == "已显示 "@ + path@ + " 的属性"@,
    {
        framed("已显示 ", path, " 的属性")
    }
}

/// `launch <name-or-path>`: starts an application.
pub struct LaunchCommand;

impl LaunchCommand {
    /// Name, aliases, description and usage.
    pub fn spec(&self) -> (r: CommandSpec)
        ensures
            r.name@ == "launch"@,
            r.description@ == "按名称或路径启动应用"@,
            r.aliases@.len() == 2,
            r.aliases@[0]@ == "run"@,
            r.aliases@[1]@ == "open-app"@,
            r.usage@ == "launch <name-or-path>"@,
    {
        let names: [&str; 2] = ["run", "open-app"];
        command_spec_aliased("launch", "按名称或路径启动应用", names.as_slice(), "launch <name-or-path>")
    }

    /// The name to look up, or the usage text.
    pub fn plan(&self, args: &[String]) -> (r: PathCommandPlan)
        ensures
            path_plan_of(views(args@), "用法：launch <name-or-path>"@, r),
    {
        path_plan(args, "用法：launch <name-or-path>")
    }

    /// What to start for `name`, and the reply: the path of the best
    /// application match (its title, then its path) when there is one,
    /// otherwise `name` itself.
    pub fn target(&self, name: &str, best: Option<(String, String)>) -> (r: (String, String))
        ensures
            match best {
                Some(b) => r.0@ == b.1@ && r.1@ == "已启动 "@ + b.0@,
                None => r.0@ == name@ && r.1@ == "已启动 "@ + name@,
            },
    {
        match best {
            Some((title, path)) => {
                let m = prefixed("已启动 ", title.as_str());
                (path, m)
            },
            None => {
                let m = prefixed("已启动 ", name);
                (lit(name), m)
            },
        }
    }
}

/// `copy-path <path>`: puts a path on the clipboard.
pub struct CopyPathCommand;

impl CopyPathCommand {
    /// Name, aliases, description and usage.
    pub fn spec(&self) -> (r: CommandSpec)
        ensures
            r.name@ == "copy-path"@,
            r.description@ == "复制文件路径到剪贴板"@,
            r.aliases@.len() == 2,
            r.aliases@[0]@ == "cp"@,
            r.aliases@[1]@ == "copy"@,
            r.usage@ == "copy-path <path>"@,
    {
        let names: [&str; 2] = ["cp", "copy"];
        command_spec_aliased("copy-path", "复制文件路径到剪贴板", names.as_slice(), "copy-path <path>")
    }

    /// The path to copy, or the usage text.
    pub fn plan(&self, args: &[String]) -> (r: PathCommandPlan)
        ensures
            path_plan_of(views(args@), "用法：copy-path <path>"@, r),
    {
        path_plan(args, "用法：copy-path <path>")
    }

    /// The reply once `path` was copied.
    pub fn done_message(&self, path: &str) -> (r: String)
        ensures
            r@ == "已复制路径: "@ + path@,
    {
        let r = prefixed("已复制路径: ", path);
        r
    }
}

/// Registers the file and launch commands, in this order: open,
/// open-location, delete-file, show-properties, launch, copy-path.
pub fn register_commands(reg: &mut crate::command::CommandRegistry)
    ensures
        final(reg).specs@.len() == old(reg).specs@.len() + 6,
        forall|i: int| 0 <= i < old(reg).specs@.len() ==> final(reg).specs@[i] == old(reg).specs@[i],
        final(reg).specs@[old(reg).specs@.len() as int].name@ == "open"@,
        final(reg).specs@[old(reg).specs@.len() as int + 1].name@ == "open-location"@,
        final(reg).specs@[old(reg).specs@.len() as int + 2].name@ == "delete-file"@,
        final(reg).specs@[old(reg).specs@.len() as int + 3].name@ == "show-properties"@,
        final(reg).specs@[old(reg).specs@.len() as int + 4].name@ == "launch"@,
        final(reg).specs@[old(reg).specs@.len() as int + 5].name@ == "copy-path"@,
{
    reg.register(OpenCommand.spec());
    reg.register(OpenLocationCommand.spec());
    reg.register(DeleteFileCommand.spec());
    reg.register(ShowPropertiesCommand.spec());
    reg.register(LaunchCommand.spec());
    reg.register(CopyPathCommand.spec());
}

} // verus!
