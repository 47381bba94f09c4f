//! The `config`, `stats` and `command` commands of the command line: how
//! their arguments are read, what they change, and their replies.  Reading
//! the stores and running programs is left to the caller.

use vstd::prelude::*;
use crate::command::{
    command_spec, command_spec_aliased, framed, is_word, join_from, joined, prefixed, views,
    CommandSpec,
};
use crate::models::custom_command::CustomCommand;
use crate::models::settings::{with_field, SettingValue, Settings};
use crate::pybridge::types::{decimal, decimal_string};
use crate::text::lit;

verus! {

/// What `config` does with its arguments.
#[derive(Debug)]
pub enum ConfigPlan {
    /// Show every setting.
    ShowAll,
    /// Show the setting under this key.
    Get(String),
    /// Write `value` under `key`.
    Write { key: String, value: String },
}

/// The plan of `config args`: no argument shows all settings, one shows the
/// setting it names, more write the rest, joined by spaces, under the first.
pub open spec fn config_plan_of(args: Seq<Seq<char>>, r: ConfigPlan) -> bool {
    if args.len() == 0 {
        r is ShowAll
    } else if args.len() == 1 {
        r matches ConfigPlan::Get(k) && k@ == args[0]
    } else {
        r matches ConfigPlan::Write { key, value } && key@ == args[0] && value@ == joined(
            args.drop_first(),
            " "@,
        )
    }
}

/// `config [key] [value]`: shows or changes the settings.
pub struct ConfigCommand;

impl ConfigCommand {
    /// Name, aliases, description and usage.
    pub fn spec(&self) -> (r: CommandSpec)
        ensures
            r.name@ == "config"@,
            r.description@ == "查看或修改设置"@,
            r.aliases@.len() == 2,
            r.aliases@[0]@ == "cfg"@,
            r.aliases@[1]@ == "setting"@,
            r.usage@ == "config [key] [value]"@,
    {
        let names: [&str; 2] = ["cfg", "setting"];
        command_spec_aliased("config", "查看或修改设置", names.as_slice(), "config [key] [value]")
    }

    /// Reads the arguments; see `config_plan_of`.
    pub fn plan(&self, args: &[String]) -> (r: ConfigPlan)
        ensures
            config_plan_of(views(args@), r),
    {
        let ghost a = views(args@);
        if args.len() == 0 {
            ConfigPlan::ShowAll
        } else if args.len() == 1 {
            assert(a[0] == args@[0]@);
            ConfigPlan::Get(args[0].clone())
        } else {
            assert(a[0] == args@[0]@);
            assert(a.subrange(1, a.len() as int) =~= a.drop_first());
            ConfigPlan::Write { key: args[0].clone(), value: join_from(args, 1, " ") }
        }
    }

    /// Writes the text `value` under `key`, as the settings store does with
    /// a string; see `with_field`.
    pub fn apply(&self, settings: &mut Settings, key: &str, value: &str)
        ensures
            exists|x: String|
                x@ == value@ && *final(settings) == with_field(*old(settings), key@, SettingValue::Str(x)),
    {
        settings.set_field_raw(key, value);
    }

    /// The reply once `value` was written under `key`.
    pub fn set_message(&self, key: &str, value: &str) -> (r: String)
        ensures
            r@ == "已设置 "@ + key@ + " = "@ + value@,
    {
        let mut m = framed("已设置 ", key, " = ");
        crate::text::push_str(&mut m, value);
        m
    }
}

/// What `stats` reports.
#[derive(Debug)]
pub enum StatsPlan {
    /// The sizes of the application, file and command stores.
    All,
    /// The number of indexed applications.
    Apps,
    /// The number of custom commands, enabled and disabled.
    Commands,
    /// The number of indexed files.
    Files,
    /// All of these, with the search roots and drives.
    Detail,
    /// An unknown subcommand, with the reply.
    Unknown(String),
}

/// The plan of `stats args`, by its first argument.
pub open spec fn stats_plan_of(args: Seq<Seq<char>>, r: StatsPlan) -> bool {
    if args.len() == 0 {
        r is All
    } else if args[0] == "apps"@ {
        r is Apps
    } else if args[0] == "commands"@ {
        r is Commands
    } else if args[0] == "files"@ {
        r is Files
    } else if args[0] == "detail"@ {
        r is Detail
    } else {
        r matches StatsPlan::Unknown(m) && m@ == "未知子命令：apps|commands|files|detail"@
    }
}

/// How many of `enabled` are true.
pub open spec fn count_true(enabled: Seq<bool>) -> nat
    decreases enabled.len(),
{
    if enabled.len() == 0 {
        0
    } else {
        count_true(enabled.drop_last()) + if enabled.last() { 1nat } else { 0nat }
    }
}

proof fn lemma_count_true_le(enabled: Seq<bool>)
    ensures
        count_true(enabled) <= enabled.len(),
    decreases enabled.len(),
{
    if enabled.len() > 0 {
        lemma_count_true_le(enabled.drop_last());
    }
}

/// `stats [apps|commands|files]`: reports the sizes of the stores.
pub struct StatsCommand;

impl StatsCommand {
    /// Name, description and usage.
    pub fn spec(&self) -> (r: CommandSpec)
        ensures
            r.name@ == "stats"@,
            r.description@ == "查询应用统计信息"@,
            r.aliases@.len() == 0,
            r.usage@ == "stats [apps|commands|files]"@,
    {
        command_spec("stats", "查询应用统计信息", "stats [apps|commands|files]")
    }

    /// Reads the subcommand; see `stats_plan_of`.
    pub fn plan(&self, args: &[String]) -> (r: StatsPlan)
        ensures
            stats_plan_of(views(args@), r),
    {
        if args.len() == 0 {
            return StatsPlan::All;
        }
        assert(views(args@)[0] == args@[0]@);
        if is_word(&args[0], "apps") {
            StatsPlan::Apps
        } else if is_word(&args[0], "commands") {
            StatsPlan::Commands
        } else if is_word(&args[0], "files") {
            StatsPlan::Files
        } else if is_word(&args[0], "detail") {
            StatsPlan::Detail
        } else {
            StatsPlan::Unknown(lit("未知子命令：apps|commands|files|detail"))
        }
    }

    /// The counts of custom commands whose enabled flags are `enabled`:
    /// all of them, the enabled ones and the disabled ones.
    pub fn command_counts(&self, enabled: &[bool]) -> (r: (usize, usize, usize))
        ensures
            r.0 == enabled@.len(),
            r.1 == count_true(enabled@),
            r.2 == enabled@.len() - count_true(enabled@),
    {
        let mut on: usize = 0;
        let mut i: usize = 0;
        while i < enabled.len()
            invariant
                i <= enabled@.len(),
                on == count_true(enabled@.take(i as int)),
                on <= i,
            decreases enabled@.len() - i,
        {
            assert(enabled@.take(i + 1).drop_last() =~= enabled@.take(i as int));
            if enabled[i] {
                on += 1;
            }
            i += 1;
        }
        assert(enabled@.take(enabled@.len() as int) =~= enabled@);
        (enabled.len(), on, enabled.len() - on)
    }

    /// The reply for `total` indexed applications.
    pub fn apps_message(&self, total: u32) -> (r: String)
        ensures
            r@ == "已索引 "@ + decimal(total as int) + " 个应用"@,
    {
        let d = decimal_string(total as i64);
        framed("已索引 ", d.as_str(), " 个应用")
    }

    /// The reply for `total` indexed files.
    pub fn files_message(&self, total: u32) -> (r: String)
        ensures
            r@ == "已索引 "@ + decimal(total as int) + " 个文件"@,
    {
        let d = decimal_string(total as i64);
        framed("已索引 ", d.as_str(), " 个文件")
    }
}

/// What `command` does with its arguments.
#[derive(Debug)]
pub enum CustomPlan {
    /// A usage error or an unknown subcommand, with the reply.
    Fail(String),
    /// List the custom commands.
    List,
    /// Run the custom command with this id.
    Run(String),
    /// Add a custom command.
    Add { name: String, keyword: String, command: String },
    /// Remove the custom command with this id.
    Remove(String),
}

/// Argument `i`, or the empty text when there is none.
pub open spec fn arg_or_empty(args: Seq<Seq<char>>, i: int) -> Seq<char> {
    if 0 <= i < args.len() { args[i] } else { Seq::empty() }
}

/// The plan of `command args`.  `add` takes a name, a keyword (the name when
/// empty) and a command line, and needs the name and the command line.
pub open spec fn custom_plan_of(args: Seq<Seq<char>>, r: CustomPlan) -> bool {
    if args.len() == 0 {
        r matches CustomPlan::Fail(m) && m@ == "用法：command <list|run|add|remove>"@
    } else if args[0] == "list"@ {
        r is List
    } else if args[0] == "run"@ {
        r matches CustomPlan::Run(id) && id@ == arg_or_empty(args, 1)
    } else if args[0] == "add"@ {
        let name = arg_or_empty(args, 1);
        let kw = arg_or_empty(args, 2);
        let cmd = arg_or_empty(args, 3);
        if name.len() == 0 || cmd.len() == 0 {
            r matches CustomPlan::Fail(m) && m@ == "用法：command add <name> <keyword> <command>"@
        } else {
            r matches CustomPlan::Add { name: n, keyword: k, command: c } && n@ == name && c@ == cmd
                && k@ == (if kw.len() == 0 { name } else { kw })
        }
    } else if args[0] == "remove"@ || args[0] == "rm"@ {
        r matches CustomPlan::Remove(id) && id@ == arg_or_empty(args, 1)
    } else {
        r matches CustomPlan::Fail(m) && m@ == "未知子命令："@ + args[0]
    }
}

fn arg_at(args: &[String], i: usize) -> (r: String)
    ensures
        r@ == arg_or_empty(views(args@), i as int),
{
    if i < args.len() {
        args[i].clone()
    } else {
        String::new()
    }
}

/// A fresh identifier for a custom command: a random version-4 UUID in its
/// hyphenated form.
#[verifier::external_body]
pub(crate) fn new_command_id() -> (r: String)
    ensures
        r@.len() == 36,
{
    uuid::Uuid::new_v4().to_string()
}

/// `command <list|run|add|remove>`: manages the custom commands.
pub struct CustomCommandHandler;

impl CustomCommandHandler {
    /// Name, aliases, description and usage.
    pub fn spec(&self) -> (r: CommandSpec)
        ensures
            r.name@ == "command"@,
            r.description@ == "自定义命令管理"@,
            r.aliases@.len() == 2,
            r.aliases@[0]@ == "cmd"@,
            r.aliases@[1]@ == "c"@,
            r.usage@ == "command <list|run|add|remove>"@,
    {
        let names: [&str; 2] = ["cmd", "c"];
        command_spec_aliased("command", "自定义命令管理", names.as_slice(), "command <list|run|add|remove>")
    }

    /// Reads the subcommand and its arguments; see `custom_plan_of`.
    pub fn plan(&self, args: &[String]) -> (r: CustomPlan)
        ensures
            custom_plan_of(views(args@), r),
    {
        if args.len() == 0 {
            return CustomPlan::Fail(lit("用法：command <list|run|add|remove>"));
        }
        assert(views(args@)[0] == args@[0]@);
        if is_word(&args[0], "list") {
            CustomPlan::List
        } else if is_word(&args[0], "run") {
            CustomPlan::Run(arg_at(args, 1))
        } else if is_word(&args[0], "add") {
            let name = arg_at(args, 1);
            let kw = arg_at(args, 2);
            let command = arg_at(args, 3);
            if name.as_str().is_empty() || command.as_str().is_empty() {
                return CustomPlan::Fail(lit("用法：command add <name> <keyword> <command>"));
            }
            let keyword = if kw.as_str().is_empty() { name.clone() } else { kw };
            CustomPlan::Add { name, keyword, command }
        } else if is_word(&args[0], "remove") || is_word(&args[0], "rm") {
            CustomPlan::Remove(arg_at(args, 1))
        } else {
            CustomPlan::Fail(prefixed("未知子命令：", args[0].as_str()))
        }
    }

    /// A new enabled custom command of the category `Custom`, with no
    /// arguments, description, folder or icon, never used.
    pub fn build_command(
        &self,
        id: String,
        name: String,
        keyword: String,
        command: String,
        created_at: i64,
    ) -> (r: CustomCommand)
        ensures
            r.id@ == id@,
            r.name@ == name@,
            r.keyword@ == keyword@,
            r.command@ == command@,
            r.description is None,
            r.args@.len() == 0,
            r.working_dir is None,
            r.icon is None,
            r.category@ == "Custom"@,
            r.enabled,
            !r.run_as_admin,
            r.created_at == created_at,
            r.last_used_at is None,
    {
        CustomCommand {
            id,
            name,
            description: None,
            keyword,
            command,
            args: Vec::new(),
            working_dir: None,
            icon: None,
            category: lit("Custom"),
            enabled: true,
            run_as_admin: false,
            created_at,
            last_used_at: None,
        }
    }

    /// The command that `add` stores: as `build_command` makes it, with a
    /// fresh id and the current time.
    pub fn new_command(&self, name: String, keyword: String, command: String) -> (r: CustomCommand)
        ensures
            r.id@.len() == 36,
            r.name@ == name@,
            r.keyword@ == keyword@,
            r.command@ == command@,
            r.description is None,
            r.args@.len() == 0,
            r.working_dir is None,
            r.icon is None,
            r.category@ == "Custom"@,
            r.enabled,
            !r.run_as_admin,
            r.last_used_at is None,
    {
        let id = new_command_id();
        let now = crate::clock::now_seconds();
        self.build_command(id, name, keyword, command, now)
    }

    /// The reply to `run id` when no command has that id.
    pub fn not_found_message(&self, id: &str) -> (r: String)
        ensures
            r@ == "Command not found: "@ + id@,
    {
        prefixed("Command not found: ", id)
    }

    /// The reply once the command named `name` was run.
    pub fn ran_message(&self, name: &str) -> (r: String)
        ensures
            r@ == "已运行 "@ + name@,
    {
        prefixed("已运行 ", name)
    }

    /// The reply once the command `id` was added.
    pub fn added_message(&self, id: &str) -> (r: String)
        ensures
            r@ == "已添加："@ + id@,
    {
        prefixed("已添加：", id)
    }

    /// The reply once the command `id` was removed.
    pub fn removed_message(&self, id: &str) -> (r: String)
        ensures
            r@ == "已删除 "@ + id@,
    {
        prefixed("已删除 ", id)
    }
}

/// Registers `config`, `stats` and `command`, in this order.
pub fn register_commands(reg: &mut crate::command::CommandRegistry)
    ensures
        final(reg).specs@.len() == old(reg).specs@.len() + 3,
        forall|i: int| 0 <= i < old(reg).specs@.len() ==> final(reg).specs@[i] == old(reg).specs@[i],
        final(reg).specs@[old(reg).specs@.len() as int].name@ == "config"@,
        final(reg).specs@[old(reg).specs@.len() as int + 1].name@ == "stats"@,
        final(reg).specs@[old(reg).specs@.len() as int + 2].name@ == "command"@,
{
    reg.register(ConfigCommand.spec());
    reg.register(StatsCommand.spec());
    reg.register(CustomCommandHandler.spec());
}

} // verus!
