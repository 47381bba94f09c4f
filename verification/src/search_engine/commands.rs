//! The `search` and `index` commands of the command line: how their
//! arguments are read, and what `index` does to the list of search roots.
//! Running the searches and the indexer is left to the caller.

use vstd::prelude::*;
use crate::command::{
    command_spec_aliased, framed, is_word, join_from, joined, parse_u32, prefixed, u32_text, views,
    CommandSpec,
};
use crate::pybridge::types::{decimal, decimal_string};
use crate::text::lit;

verus! {

/// What `search` does with its arguments.
#[derive(Debug)]
pub enum SearchPlan {
    /// The arguments hold no query; the text tells how to call the command.
    Usage(String),
    /// Search for `query`, keeping at most `limit` results.
    Query { query: String, limit: u32 },
}

/// `--limit` or its short form `-l`.
pub open spec fn is_limit_flag(a: Seq<char>) -> bool {
    a == "--limit"@ || a == "-l"@
}

/// Reads `args` from position `i` on, with the limit and the query words
/// found so far: a limit flag followed by a value sets the limit to the value
/// read as a number, or to 10 when it is no number; a limit flag with
/// nothing after it is dropped; every other argument is a query word.
pub open spec fn scan_search(args: Seq<Seq<char>>, i: int, limit: u32, parts: Seq<Seq<char>>) -> (
    u32,
    Seq<Seq<char>>,
)
    decreases args.len() - i,
{
    if i < 0 || i >= args.len() {
        (limit, parts)
    } else if is_limit_flag(args[i]) {
        if i + 1 < args.len() {
            let v = match u32_text(args[i + 1]) {
                Some(v) => v,
                None => 10u32,
            };
            scan_search(args, i + 2, v, parts)
        } else {
            scan_search(args, i + 1, limit, parts)
        }
    } else {
        scan_search(args, i + 1, limit, parts.push(args[i]))
    }
}

/// The plan of `search args`: the query words joined by spaces and the
/// limit, which is 20 unless set; the usage text when the query is empty.
pub open spec fn search_plan_of(args: Seq<Seq<char>>, r: SearchPlan) -> bool {
    let (limit, parts) = scan_search(args, 0, 20, Seq::empty());
    let q = joined(parts, " "@);
    if args.len() == 0 || q.len() == 0 {
        r matches SearchPlan::Usage(u) && u@ == "用法：search <query>"@
    } else {
        r matches SearchPlan::Query { query, limit: l } && query@ == q && l == limit
    }
}

/// `search <query> [--limit N]`: searches applications, files and commands.
pub struct SearchCommand;

impl SearchCommand {
    /// Name, aliases, description and usage.
    pub fn spec(&self) -> (r: CommandSpec)
        ensures
            r.name@ == "search"@,
            r.description@ == "搜索应用/文件/命令"@,
            r.aliases@.len() == 2,
            r.aliases@[0]@ == "s"@,
            r.aliases@[1]@ == "find"@,
            r.usage@ == "search <query> [--limit N]"@,
    {
        let names: [&str; 2] = ["s", "find"];
        command_spec_aliased("search", "搜索应用/文件/命令", names.as_slice(), "search <query> [--limit N]")
    }

    /// Reads the query and the limit; see `search_plan_of`.
    pub fn plan(&self, args: &[String]) -> (r: SearchPlan)
        ensures
            search_plan_of(views(args@), r),
    {
        let ghost a = views(args@);
        if args.len() == 0 {
            return SearchPlan::Usage(lit("用法：search <query>"));
        }
        let mut limit: u32 = 20;
        let mut parts: Vec<String> = Vec::new();
        let mut i: usize = 0;
        assert(views(parts@) =~= Seq::<Seq<char>>::empty());
        while i < args.len()
            invariant
                a == views(args@),
                i <= args@.len() + 1,
                scan_search(a, 0, 20, Seq::empty()) == scan_search(a, i as int, limit, views(parts@)),
            decreases args@.len() + 1 - i,
        {
            let flag = is_word(&args[i], "--limit") || is_word(&args[i], "-l");
            if flag && i + 1 < args.len() {
                limit = match parse_u32(args[i + 1].as_str()) {
                    Some(v) => v,
                    None => 10,
                };
                i += 2;
            } else {
                if !flag {
                    let ghost before = views(parts@);
                    parts.push(args[i].clone());
                    assert(views(parts@) =~= before.push(a[i as int]));
                }
                i += 1;
            }
        }
        let query = join_from(parts.as_slice(), 0, " ");
        assert(views(parts@).subrange(0, parts@.len() as int) =~= views(parts@));
        if query.as_str().is_empty() {
            SearchPlan::Usage(lit("用法：search <query>"))
        } else {
            SearchPlan::Query { query, limit }
        }
    }

    /// The reply for `n` results found.
    pub fn found_message(&self, n: u32) -> (r: String)
        ensures
            r@ == "找到 "@ + decimal(n as int) + " 项结果"@,
    {
        let d = decimal_string(n as i64);
        framed("找到 ", d.as_str(), " 项结果")
    }
}

/// Whether the texts `a` and `b` name the same path as `Path`'s `==` decides
/// it, component by component, on the platform the library is built for.
pub uninterp spec fn path_eq(a: Seq<char>, b: Seq<char>) -> bool;

/// `s` holds no path separator (`/`, `\\`) and no drive colon, so it is at
/// most one plain component on every platform.
pub open spec fn single_component(s: Seq<char>) -> bool {
    forall|i: int| 0 <= i < s.len() ==> s[i] != '/' && s[i] != '\\' && s[i] != ':'
}

/// `std::path::Path`'s `==` on two texts.  Its result is named `path_eq`;
/// stated of it: identical texts name the same path, and two texts of at
/// most one plain component each name the same path exactly when they are
/// identical.  How separators, `.` components and prefixes are compared
/// beyond that is left unstated.
#[verifier::external_body]
fn same_path(a: &str, b: &str) -> (r: bool)
    ensures
        r == path_eq(a@, b@),
        a@ == b@ ==> r,
        single_component(a@) && single_component(b@) ==> (r == (a@ == b@)),
{
    std::path::Path::new(a) == std::path::Path::new(b)
}

/// For each root, whether it names the same path as `path`.
pub open spec fn same_flags(roots: Seq<String>, path: Seq<char>) -> Seq<bool> {
    Seq::new(roots.len(), |i: int| path_eq(roots[i]@, path))
}

/// `same[i]` tells whether root `i` names the path being added or removed.
pub open spec fn flags_of(roots: Seq<String>, same: Seq<bool>) -> bool {
    same.len() == roots.len()
}

/// The roots after adding a path whose comparison with each root is `same`:
/// unchanged if some root names it, else with the path at the end.
pub fn with_root(roots: Vec<String>, path: &str, same: &[bool]) -> (r: Vec<String>)
    requires
        flags_of(roots@, same@),
    ensures
        (exists|i: int| 0 <= i < same@.len() && same@[i]) ==> r@ == roots@,
        (forall|i: int| 0 <= i < same@.len() ==> !same@[i]) ==> views(r@) == views(roots@).push(path@),
{
    let mut i: usize = 0;
    while i < same.len()
        invariant
            i <= same@.len(),
            forall|j: int| 0 <= j < i ==> !same@[j],
        decreases same@.len() - i,
    {
        if same[i] {
            return roots;
        }
        i += 1;
    }
    let mut r = roots;
    let ghost before = views(r@);
    r.push(lit(path));
    assert(views(r@) =~= before.push(path@));
    r
}

/// The roots kept when removing a path: those whose comparison `same` was
/// false, in order.
pub open spec fn kept_roots(roots: Seq<Seq<char>>, same: Seq<bool>) -> Seq<Seq<char>>
    decreases roots.len(),
{
    if roots.len() == 0 || same.len() != roots.len() {
        Seq::empty()
    } else if same.last() {
        kept_roots(roots.drop_last(), same.drop_last())
    } else {
        kept_roots(roots.drop_last(), same.drop_last()).push(roots.last())
    }
}

/// The roots after removing the ones whose comparison `same` was true.
pub fn without_roots(roots: Vec<String>, same: &[bool]) -> (r: Vec<String>)
    requires
        flags_of(roots@, same@),
    ensures
        views(r@) == kept_roots(views(roots@), same@),
{
    let ghost all = views(roots@);
    let mut r: Vec<String> = Vec::new();
    let mut i: usize = 0;
    for x in it: roots.into_iter()
        invariant
            views(it.seq()) == all,
            all.len() == same@.len(),
            it.index() <= same@.len(),
            i == it.index(),
            views(r@) == kept_roots(all.take(it.index() as int), same@.take(it.index() as int)),
    {
        let k = i;
        let ghost before = views(r@);
        assert(all.take(k + 1).drop_last() =~= all.take(k as int));
        assert(same@.take(k + 1).drop_last() =~= same@.take(k as int));
        assert(all[k as int] == x@);
        if !same[k] {
            r.push(x);
            assert(views(r@) =~= before.push(all[k as int]));
        }
        i += 1;
    }
    assert(all.take(all.len() as int) =~= all);
    assert(same@.take(same@.len() as int) =~= same@);
    r
}

fn compare_roots(roots: &Vec<String>, path: &str) -> (same: Vec<bool>)
    ensures
        same@ == same_flags(roots@, path@),
        forall|i: int| 0 <= i < roots@.len() && roots@[i]@ == path@ ==> same@[i],
{
    let mut same: Vec<bool> = Vec::new();
    let mut i: usize = 0;
    while i < roots.len()
        invariant
            i <= roots@.len(),
            same@.len() == i,
            forall|j: int| 0 <= j < i ==> #[trigger] same@[j] == path_eq(roots@[j]@, path@),
            forall|j: int| 0 <= j < i && roots@[j]@ == path@ ==> same@[j],
        decreases roots@.len() - i,
    {
        same.push(same_path(roots[i].as_str(), path));
        i += 1;
    }
    assert(same@ =~= same_flags(roots@, path@));
    same
}

/// Adds `path` to the search roots unless a root names the same path, as
/// `Path` comparison decides (`path_eq`): then the roots stay as they were;
/// else `path` is added at the end.  A root with exactly the text of `path`
/// always names it.
pub fn add_root(roots: Vec<String>, path: &str) -> (r: Vec<String>)
    ensures
        (exists|i: int| 0 <= i < roots@.len() && path_eq(#[trigger] roots@[i]@, path@)) ==> r@ == roots@,
        (forall|i: int| 0 <= i < roots@.len() ==> !path_eq(#[trigger] roots@[i]@, path@)) ==> views(r@)
            == views(roots@).push(path@),
        (exists|i: int| 0 <= i < roots@.len() && roots@[i]@ == path@) ==> r@ == roots@,
{
    let same = compare_roots(&roots, path);
    proof {
        if exists|i: int| 0 <= i < roots@.len() && path_eq(#[trigger] roots@[i]@, path@) {
            let i = choose|i: int| 0 <= i < roots@.len() && path_eq(#[trigger] roots@[i]@, path@);
            assert(same@[i]);
        }
        if exists|i: int| 0 <= i < roots@.len() && roots@[i]@ == path@ {
            let i = choose|i: int| 0 <= i < roots@.len() && roots@[i]@ == path@;
            assert(same@[i]);
        }
        if forall|i: int| 0 <= i < roots@.len() ==> !path_eq(#[trigger] roots@[i]@, path@) {
            assert forall|i: int| 0 <= i < same@.len() implies !same@[i] by {
                assert(!path_eq(roots@[i]@, path@));
            }
        }
    }
    with_root(roots, path, same.as_slice())
}

/// Removes from the search roots those that name the same path as `path`,
/// as `Path` comparison decides (`path_eq`), keeping the order of the
/// others; see `kept_roots`.  Roots with exactly the text of `path` are
/// always removed.
pub fn remove_root(roots: Vec<String>, path: &str) -> (r: Vec<String>)
    ensures
        views(r@) == kept_roots(views(roots@), same_flags(roots@, path@)),
        forall|i: int| 0 <= i < roots@.len() && roots@[i]@ == path@ ==> same_flags(roots@, path@)[i],
{
    let same = compare_roots(&roots, path);
    let r = without_roots(roots, same.as_slice());
    r
}

/// What `index` does with its arguments.
#[derive(Debug)]
pub enum IndexPlan {
    /// A usage error or an unknown subcommand, with its text.
    Fail(String),
    /// Build the file index.
    Build,
    /// Bring the file index up to date.
    Update,
    /// Report the index sizes.
    Stats,
    /// Add this search root.
    AddRoot(String),
    /// Remove this search root.
    RemoveRoot(String),
}

/// The plan of `index args`.
pub open spec fn index_plan_of(args: Seq<Seq<char>>, r: IndexPlan) -> bool {
    if args.len() == 0 {
        r matches IndexPlan::Fail(m) && m@ == "用法：index <build|update|stats|add-root|remove-root>"@
    } else if args[0] == "build"@ {
        r is Build
    } else if args[0] == "update"@ {
        r is Update
    } else if args[0] == "stats"@ {
        r is Stats
    } else if args[0] == "add-root"@ {
        if args.len() == 1 {
            r matches IndexPlan::Fail(m) && m@ == "用法：index add-root <path>"@
        } else {
            r matches IndexPlan::AddRoot(p) && p@ == joined(args.drop_first(), " "@)
        }
    } else if args[0] == "remove-root"@ {
        if args.len() == 1 {
            r matches IndexPlan::Fail(m) && m@ == "用法：index remove-root <path>"@
        } else {
            r matches IndexPlan::RemoveRoot(p) && p@ == joined(args.drop_first(), " "@)
        }
    } else {
        r matches IndexPlan::Fail(m) && m@ == "未知子命令：build|update|stats|add-root|remove-root"@
    }
}

/// `index <build|update|stats|add-root|remove-root>`: manages the file index.
pub struct IndexCommand;

impl IndexCommand {
    /// Name, aliases, description and usage.
    pub fn spec(&self) -> (r: CommandSpec)
        ensures
            r.name@ == "index"@,
            r.description@ == "文件索引管理"@,
            r.aliases@.len() == 1,
            r.aliases@[0]@ == "idx"@,
            r.usage@ == "index <build|update|stats|add-root|remove-root> [options]"@,
    {
        let names: [&str; 1] = ["idx"];
        command_spec_aliased(
            "index",
            "文件索引管理",
            names.as_slice(),
            "index <build|update|stats|add-root|remove-root> [options]",
        )
    }

    /// Reads the subcommand; see `index_plan_of`.
    pub fn plan(&self, args: &[String]) -> (r: IndexPlan)
        ensures
            index_plan_of(views(args@), r),
    {
        let ghost a = views(args@);
        if args.len() == 0 {
            return IndexPlan::Fail(lit("用法：index <build|update|stats|add-root|remove-root>"));
        }
        assert(a[0] == args@[0]@);
        assert(a.subrange(1, a.len() as int) =~= a.drop_first());
        if is_word(&args[0], "build") {
            IndexPlan::Build
        } else if is_word(&args[0], "update") {
            IndexPlan::Update
        } else if is_word(&args[0], "stats") {
            IndexPlan::Stats
        } else if is_word(&args[0], "add-root") {
            if args.len() == 1 {
                IndexPlan::Fail(lit("用法：index add-root <path>"))
            } else {
                IndexPlan::AddRoot(join_from(args, 1, " "))
            }
        } else if is_word(&args[0], "remove-root") {
            if args.len() == 1 {
                IndexPlan::Fail(lit("用法：index remove-root <path>"))
            } else {
                IndexPlan::RemoveRoot(join_from(args, 1, " "))
            }
        } else {
            IndexPlan::Fail(lit("未知子命令：build|update|stats|add-root|remove-root"))
        }
    }

    /// The refusal to build when no search root is configured.
    pub fn build_refusal(&self, roots: &Vec<String>) -> (r: Option<String>)
        ensures
            roots@.len() == 0 ==> (r matches Some(m) && m@ == "未配置搜索根目录，请先使用 index add-root 添加"@),
            roots@.len() > 0 ==> r is None,
    {
        if roots.len() == 0 {
            Some(lit("未配置搜索根目录，请先使用 index add-root 添加"))
        } else {
            None
        }
    }

    /// The reply once the index was built with `total` files.
    pub fn built_message(&self, total: u32) -> (r: String)
        ensures
            r@ == "索引构建完成，共 "@ + decimal(total as int) + " 个文件"@,
    {
        let d = decimal_string(total as i64);
        framed("索引构建完成，共 ", d.as_str(), " 个文件")
    }

    /// The reply once `path` was added as a search root.
    pub fn added_message(&self, path: &str) -> (r: String)
        ensures
            r@ == "已添加搜索根目录: "@ + path@,
    {
        prefixed("已添加搜索根目录: ", path)
    }

    /// The reply once `path` was removed from the search roots.
    pub fn removed_message(&self, path: &str) -> (r: String)
        ensures
            r@ == "已移除搜索根目录: "@ + path@,
    {
        prefixed("已移除搜索根目录: ", path)
    }
}

/// Registers `search` and then `index`.
pub fn register_commands(reg: &mut crate::command::CommandRegistry)
    ensures
        final(reg).specs@.len() == old(reg).specs@.len() + 2,
        forall|i: int| 0 <= i < old(reg).specs@.len() ==> final(reg).specs@[i] == old(reg).specs@[i],
        final(reg).specs@[old(reg).specs@.len() as int].name@ == "search"@,
        final(reg).specs@[old(reg).specs@.len() as int + 1].name@ == "index"@,
{
    reg.register(SearchCommand.spec());
    reg.register(IndexCommand.spec());
}

} // verus!
