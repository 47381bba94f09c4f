use monotools::command::{join_from, parse_u32, CommandRegistry};
use monotools::models::settings::{Settings, ThemeMode};
use monotools::platform::commands::{
    CopyPathCommand, DeleteFileCommand, LaunchCommand, OpenCommand, OpenLocationCommand, PathCommandPlan,
    ShowPropertiesCommand,
};
use monotools::repositories::commands::{ConfigCommand, ConfigPlan, CustomCommandHandler, CustomPlan, StatsCommand, StatsPlan};
use monotools::search_engine::commands::{add_root, remove_root, IndexCommand, IndexPlan, SearchCommand, SearchPlan};

fn args(v: &[&str]) -> Vec<String> {
    v.iter().map(|s| s.to_string()).collect()
}

#[test]
fn path_commands_join_arguments() {
    match OpenCommand.plan(&args(&["C:\\My", "Docs"])) {
        PathCommandPlan::Run(p) => assert_eq!(p, "C:\\My Docs"),
        other => panic!("{:?}", other),
    }
    match OpenCommand.plan(&[]) {
        PathCommandPlan::Usage(u) => assert_eq!(u, "用法：open <path>"),
        other => panic!("{:?}", other),
    }
    match DeleteFileCommand.plan(&[]) {
        PathCommandPlan::Usage(u) => assert_eq!(u, "用法：delete-file <path>"),
        other => panic!("{:?}", other),
    }
    assert_eq!(OpenCommand.done_message("x"), "已打开 x");
    assert_eq!(OpenLocationCommand.done_message("x"), "已打开 x 的所在目录");
    assert_eq!(ShowPropertiesCommand.done_message("x"), "已显示 x 的属性");
    assert_eq!(CopyPathCommand.done_message("x"), "已复制路径: x");
    assert_eq!(DeleteFileCommand.done_message("x"), "已删除 x");
}

#[test]
fn command_specs_and_registration() {
    let s = LaunchCommand.spec();
    assert_eq!(s.name, "launch");
    assert_eq!(s.aliases, vec!["run".to_string(), "open-app".to_string()]);
    assert_eq!(s.usage, "launch <name-or-path>");
    let mut reg = CommandRegistry::new();
    monotools::platform::commands::register_commands(&mut reg);
    monotools::search_engine::commands::register_commands(&mut reg);
    monotools::repositories::commands::register_commands(&mut reg);
    let names: Vec<&str> = reg.specs.iter().map(|s| s.name.as_str()).collect();
    assert_eq!(
        names,
        vec![
            "open", "open-location", "delete-file", "show-properties", "launch", "copy-path", "search", "index",
            "config", "stats", "command"
        ]
    );
}

#[test]
fn launch_target_prefers_best_match() {
    let (p, m) = LaunchCommand.target("chrome", Some(("Chrome".into(), "C:\\chrome.exe".into())));
    assert_eq!(p, "C:\\chrome.exe");
    assert_eq!(m, "已启动 Chrome");
    let (p, m) = LaunchCommand.target("foo bar", None);
    assert_eq!(p, "foo bar");
    assert_eq!(m, "已启动 foo bar");
}

#[test]
fn parse_u32_follows_std() {
    for s in ["0", "42", "+7", "4294967295", "", "+", "-1", "4294967296", "1a", " 1", "007"] {
        assert_eq!(parse_u32(s), s.parse::<u32>().ok(), "{s}");
    }
}

#[test]
fn join_from_skips_prefix() {
    assert_eq!(join_from(&args(&["a", "b", "c"]), 1, " "), "b c");
    assert_eq!(join_from(&args(&["a"]), 1, " "), "");
}

#[test]
fn search_plan_reads_limit() {
    match SearchCommand.plan(&args(&["foo", "--limit", "5", "bar"])) {
        SearchPlan::Query { query, limit } => {
            assert_eq!(query, "foo bar");
            assert_eq!(limit, 5);
        }
        other => panic!("{:?}", other),
    }
    match SearchCommand.plan(&args(&["-l", "x", "foo"])) {
        SearchPlan::Query { query, limit } => {
            assert_eq!(query, "foo");
            assert_eq!(limit, 10);
        }
        other => panic!("{:?}", other),
    }
    match SearchCommand.plan(&args(&["foo", "--limit"])) {
        SearchPlan::Query { query, limit } => {
            assert_eq!(query, "foo");
            assert_eq!(limit, 20);
        }
        other => panic!("{:?}", other),
    }
    match SearchCommand.plan(&args(&["--limit", "3"])) {
        SearchPlan::Usage(u) => assert_eq!(u, "用法：search <query>"),
        other => panic!("{:?}", other),
    }
    match SearchCommand.plan(&[]) {
        SearchPlan::Usage(u) => assert_eq!(u, "用法：search <query>"),
        other => panic!("{:?}", other),
    }
    assert_eq!(SearchCommand.found_message(3), "找到 3 项结果");
}

#[test]
fn index_plan_per_subcommand() {
    assert!(matches!(IndexCommand.plan(&args(&["build"])), IndexPlan::Build));
    assert!(matches!(IndexCommand.plan(&args(&["update"])), IndexPlan::Update));
    assert!(matches!(IndexCommand.plan(&args(&["stats"])), IndexPlan::Stats));
    match IndexCommand.plan(&args(&["add-root", "C:\\My", "Files"])) {
        IndexPlan::AddRoot(p) => assert_eq!(p, "C:\\My Files"),
        other => panic!("{:?}", other),
    }
    match IndexCommand.plan(&args(&["remove-root"])) {
        IndexPlan::Fail(m) => assert_eq!(m, "用法：index remove-root <path>"),
        other => panic!("{:?}", other),
    }
    match IndexCommand.plan(&args(&["zap"])) {
        IndexPlan::Fail(m) => assert_eq!(m, "未知子命令：build|update|stats|add-root|remove-root"),
        other => panic!("{:?}", other),
    }
    match IndexCommand.plan(&[]) {
        IndexPlan::Fail(m) => assert_eq!(m, "用法：index <build|update|stats|add-root|remove-root>"),
        other => panic!("{:?}", other),
    }
    assert_eq!(IndexCommand.build_refusal(&vec![]).unwrap(), "未配置搜索根目录，请先使用 index add-root 添加");
    assert!(IndexCommand.build_refusal(&vec!["C:\\".to_string()]).is_none());
    assert_eq!(IndexCommand.built_message(12), "索引构建完成，共 12 个文件");
}

#[test]
fn roots_added_once_and_removed() {
    let roots = add_root(vec![], "C:\\a");
    assert_eq!(roots, vec!["C:\\a".to_string()]);
    let roots = add_root(roots, "C:\\a");
    assert_eq!(roots, vec!["C:\\a".to_string()]);
    let roots = add_root(roots, "D:\\b");
    assert_eq!(roots.len(), 2);
    let roots = remove_root(roots, "C:\\a");
    assert_eq!(roots, vec!["D:\\b".to_string()]);
}

#[test]
fn config_plan_and_apply() {
    assert!(matches!(ConfigCommand.plan(&[]), ConfigPlan::ShowAll));
    match ConfigCommand.plan(&args(&["theme"])) {
        ConfigPlan::Get(k) => assert_eq!(k, "theme"),
        other => panic!("{:?}", other),
    }
    match ConfigCommand.plan(&args(&["hotkey", "Ctrl+Space", "x"])) {
        ConfigPlan::Write { key, value } => {
            assert_eq!(key, "hotkey");
            assert_eq!(value, "Ctrl+Space x");
        }
        other => panic!("{:?}", other),
    }
    let mut s = Settings::default();
    ConfigCommand.apply(&mut s, "theme", "light");
    assert_eq!(s.theme, ThemeMode::Light);
    assert_eq!(ConfigCommand.set_message("theme", "light"), "已设置 theme = light");
}

#[test]
fn stats_plan_and_counts() {
    assert!(matches!(StatsCommand.plan(&[]), StatsPlan::All));
    assert!(matches!(StatsCommand.plan(&args(&["apps"])), StatsPlan::Apps));
    assert!(matches!(StatsCommand.plan(&args(&["detail"])), StatsPlan::Detail));
    match StatsCommand.plan(&args(&["x"])) {
        StatsPlan::Unknown(m) => assert_eq!(m, "未知子命令：apps|commands|files|detail"),
        other => panic!("{:?}", other),
    }
    assert_eq!(StatsCommand.command_counts(&[true, false, true]), (3, 2, 1));
    assert_eq!(StatsCommand.apps_message(7), "已索引 7 个应用");
    assert_eq!(StatsCommand.files_message(0), "已索引 0 个文件");
}

#[test]
fn custom_command_plans() {
    match CustomCommandHandler.plan(&[]) {
        CustomPlan::Fail(m) => assert_eq!(m, "用法：command <list|run|add|remove>"),
        other => panic!("{:?}", other),
    }
    assert!(matches!(CustomCommandHandler.plan(&args(&["list"])), CustomPlan::List));
    match CustomCommandHandler.plan(&args(&["run"])) {
        CustomPlan::Run(id) => assert_eq!(id, ""),
        other => panic!("{:?}", other),
    }
    match CustomCommandHandler.plan(&args(&["add", "Notes", "", "notepad.exe"])) {
        CustomPlan::Add { name, keyword, command } => {
            assert_eq!(name, "Notes");
            assert_eq!(keyword, "Notes");
            assert_eq!(command, "notepad.exe");
        }
        other => panic!("{:?}", other),
    }
    match CustomCommandHandler.plan(&args(&["add", "Notes"])) {
        CustomPlan::Fail(m) => assert_eq!(m, "用法：command add <name> <keyword> <command>"),
        other => panic!("{:?}", other),
    }
    match CustomCommandHandler.plan(&args(&["rm", "id1"])) {
        CustomPlan::Remove(id) => assert_eq!(id, "id1"),
        other => panic!("{:?}", other),
    }
    match CustomCommandHandler.plan(&args(&["zap"])) {
        CustomPlan::Fail(m) => assert_eq!(m, "未知子命令：zap"),
        other => panic!("{:?}", other),
    }
}

#[test]
fn custom_command_records() {
    let c = CustomCommandHandler.build_command("i".into(), "n".into(), "k".into(), "c".into(), 9);
    assert_eq!(c.category, "Custom");
    assert!(c.enabled);
    assert!(!c.run_as_admin);
    assert_eq!(c.created_at, 9);
    assert!(c.args.is_empty());
    let fresh = CustomCommandHandler.new_command("n".into(), "k".into(), "c".into());
    assert_eq!(fresh.id.len(), 36);
    assert_eq!(CustomCommandHandler.not_found_message("x"), "Command not found: x");
    assert_eq!(CustomCommandHandler.ran_message("N"), "已运行 N");
    assert_eq!(CustomCommandHandler.added_message("i"), "已添加：i");
    assert_eq!(CustomCommandHandler.removed_message("i"), "已删除 i");
}
