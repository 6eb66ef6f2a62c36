//! The text of dump documents, the names of archive members and the command
//! line of the external dump tool.

use vstd::prelude::*;
use crate::batch::{backticked, views};
use crate::text::{decimal, push_decimal};

verus! {

broadcast use vstd::string::to_string_from_display_ensures_for_str;

/// The archive member that holds the database header document.
pub const DATABASE_INFO_MEMBER: &'static str = "00_database_info.sql";

/// The archive member that holds the external tool's whole dump.
pub const TOOL_DUMP_MEMBER: &'static str = "mysqldump_backup.sql";

/// The intermediate file the external tool writes.
pub const TOOL_RESULT_FILE: &'static str = "full_backup.sql";

/// The external dump tool's program name.
pub const DUMP_TOOL: &'static str = "mysqldump";

/// The leading document: a header comment and the statements that create
/// and select the database.
pub open spec fn database_info_text(database: Seq<char>) -> Seq<char> {
    "-- MySQL dump by Rust mysql-client\n-- Database: "@ + database
        + "\n\n-- 创建数据库\nCREATE DATABASE IF NOT EXISTS "@ + backticked(database)
        + " DEFAULT CHARACTER SET utf8mb4 COLLATE utf8mb4_general_ci;\nUSE "@ + backticked(database)
        + ";\n\n"@
}

/// A table's structure section: a comment, the statement that drops the
/// table and its create statement.
pub open spec fn structure_text(table: Seq<char>, create_statement: Seq<char>) -> Seq<char> {
    "\n-- 表结构: "@ + table + "\n\nDROP TABLE IF EXISTS "@ + backticked(table) + ";\n\n"@
        + create_statement + ";\n\n"@
}

/// The opening of a table's data section: a comment and the lock statement.
pub open spec fn data_opening_text(table: Seq<char>) -> Seq<char> {
    "\n-- 表数据: "@ + table + "\n\nLOCK TABLES "@ + backticked(table) + " WRITE;\n"@
}

/// The archive member of a table's document.
pub open spec fn table_member_name(table: Seq<char>) -> Seq<char> {
    "table_"@ + table + ".sql"@
}

fn push_backticked(out: &mut String, name: &str)
    ensures
        final(out)@ == old(out)@ + backticked(name@),
{
    let ghost start = out@;
    out.push('`');
    out.push_str(name);
    out.push('`');
    assert(out@ =~= start + backticked(name@));
}

/// The leading document of a built-in dump.
pub fn database_info(database: &str) -> (r: String)
    ensures
        r@ == database_info_text(database@),
{
    let mut out = String::new();
    out.push_str("-- MySQL dump by Rust mysql-client\n-- Database: ");
    out.push_str(database);
    out.push_str("\n\n-- 创建数据库\nCREATE DATABASE IF NOT EXISTS ");
    push_backticked(&mut out, database);
    out.push_str(" DEFAULT CHARACTER SET utf8mb4 COLLATE utf8mb4_general_ci;\nUSE ");
    push_backticked(&mut out, database);
    out.push_str(";\n\n");
    assert(out@ =~= database_info_text(database@));
    out
}

/// The structure section of a table from its create statement.
pub fn table_structure(table: &str, create_statement: &str) -> (r: String)
    ensures
        r@ == structure_text(table@, create_statement@),
{
    let mut out = String::new();
    out.push_str("\n-- 表结构: ");
    out.push_str(table);
    out.push_str("\n\nDROP TABLE IF EXISTS ");
    push_backticked(&mut out, table);
    out.push_str(";\n\n");
    out.push_str(create_statement);
    out.push_str(";\n\n");
    assert(out@ =~= structure_text(table@, create_statement@));
    out
}

/// The opening of a table's data section.
pub fn table_data_opening(table: &str) -> (r: String)
    ensures
        r@ == data_opening_text(table@),
{
    let mut out = String::new();
    out.push_str("\n-- 表数据: ");
    out.push_str(table);
    out.push_str("\n\nLOCK TABLES ");
    push_backticked(&mut out, table);
    out.push_str(" WRITE;\n");
    assert(out@ =~= data_opening_text(table@));
    out
}

/// The archive member name of a table's document.
pub fn table_file_name(table: &str) -> (r: String)
    ensures
        r@ == table_member_name(table@),
{
    let mut out = String::new();
    out.push_str("table_");
    out.push_str(table);
    out.push_str(".sql");
    assert(out@ =~= table_member_name(table@));
    out
}

/// The archive members of a built-in dump, in order: the database header
/// document, then one document per table in discovery order.
pub open spec fn builtin_members(tables: Seq<Seq<char>>) -> Seq<Seq<char>> {
    seq![DATABASE_INFO_MEMBER@] + tables.map_values(|t: Seq<char>| table_member_name(t))
}

/// The names of the archive members of a built-in dump.
pub fn archive_members(tables: &Vec<String>) -> (r: Vec<String>)
    ensures
        views(r@) == builtin_members(views(tables@)),
{
    let mut r: Vec<String> = Vec::new();
    r.push(DATABASE_INFO_MEMBER.to_string());
    let ghost names = views(tables@).map_values(|t: Seq<char>| table_member_name(t));
    let mut i: usize = 0;
    while i < tables.len()
        invariant
            i <= tables@.len(),
            names == views(tables@).map_values(|t: Seq<char>| table_member_name(t)),
            views(r@) == seq![DATABASE_INFO_MEMBER@] + names.take(i as int),
        decreases tables@.len() - i,
    {
        let name = table_file_name(tables[i].as_str());
        let ghost before = views(r@);
        r.push(name);
        assert(views(r@) =~= before.push(name@));
        assert(names[i as int] == table_member_name(tables@[i as int]@));
        assert(names.take(i + 1) =~= names.take(i as int).push(names[i as int]));
        assert(views(r@) =~= seq![DATABASE_INFO_MEMBER@] + names.take(i + 1));
        i = i + 1;
    }
    assert(names.take(tables@.len() as int) =~= names);
    r
}

/// `--name=value`.
pub open spec fn flag(name: Seq<char>, value: Seq<char>) -> Seq<char> {
    "--"@ + name + seq!['='] + value
}

/// The external tool's arguments: the connection, the password only where
/// one was given, drop-and-recreate for the database and its tables,
/// triggers, routines and events, one consistent transaction, only the named
/// database, written to `result_file`.
pub open spec fn tool_arguments(
    host: Seq<char>,
    port: u16,
    user: Seq<char>,
    password: Seq<char>,
    database: Seq<char>,
    result_file: Seq<char>,
) -> Seq<Seq<char>> {
    seq![flag("host"@, host), flag("port"@, decimal(port as nat)), flag("user"@, user)] + (if password.len()
        == 0 {
        seq![]
    } else {
        seq![flag("password"@, password)]
    }) + seq![
        "--add-drop-database"@,
        "--add-drop-table"@,
        "--triggers"@,
        "--routines"@,
        "--events"@,
        "--single-transaction"@,
        "--databases"@,
        database,
        "--result-file"@,
        result_file,
    ]
}

fn flag_text(name: &str, value: &str) -> (r: String)
    ensures
        r@ == flag(name@, value@),
{
    let mut out = String::new();
    out.push_str("--");
    out.push_str(name);
    out.push('=');
    out.push_str(value);
    assert(out@ =~= flag(name@, value@));
    out
}

/// The arguments of the external dump tool.
pub fn mysqldump_args(
    host: &str,
    port: u16,
    user: &str,
    password: &str,
    database: &str,
    result_file: &str,
) -> (r: Vec<String>)
    ensures
        views(r@) == tool_arguments(host@, port, user@, password@, database@, result_file@),
{
    let mut args: Vec<String> = Vec::new();
    args.push(flag_text("host", host));
    let mut port_text = String::new();
    push_decimal(&mut port_text, port as u64);
    args.push(flag_text("port", port_text.as_str()));
    args.push(flag_text("user", user));
    let ghost head = views(args@);
    if !password.is_empty() {
        args.push(flag_text("password", password));
    }
    args.push("--add-drop-database".to_string());
    args.push("--add-drop-table".to_string());
    args.push("--triggers".to_string());
    args.push("--routines".to_string());
    args.push("--events".to_string());
    args.push("--single-transaction".to_string());
    args.push("--databases".to_string());
    args.push(database.to_string());
    args.push("--result-file".to_string());
    args.push(result_file.to_string());
    assert(views(args@) =~= tool_arguments(host@, port, user@, password@, database@, result_file@));
    args
}

} // verus!
