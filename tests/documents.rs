use mysql_backup::dump::{
    archive_members, database_info, mysqldump_args, table_data_opening, table_file_name,
    table_structure,
};

#[test]
fn database_info_document() {
    assert_eq!(
        database_info("shop"),
        "-- MySQL dump by Rust mysql-client\n-- Database: shop\n\n-- 创建数据库\nCREATE DATABASE IF NOT EXISTS `shop` DEFAULT CHARACTER SET utf8mb4 COLLATE utf8mb4_general_ci;\nUSE `shop`;\n\n"
    );
}

#[test]
fn structure_section() {
    assert_eq!(
        table_structure("users", "CREATE TABLE `users` (`id` int)"),
        "\n-- 表结构: users\n\nDROP TABLE IF EXISTS `users`;\n\nCREATE TABLE `users` (`id` int);\n\n"
    );
}

#[test]
fn data_opening() {
    assert_eq!(table_data_opening("users"), "\n-- 表数据: users\n\nLOCK TABLES `users` WRITE;\n");
}

#[test]
fn member_names_in_order() {
    assert_eq!(table_file_name("users"), "table_users.sql");
    let tables = vec!["b".to_string(), "a".to_string()];
    assert_eq!(
        archive_members(&tables),
        vec!["00_database_info.sql".to_string(), "table_b.sql".to_string(), "table_a.sql".to_string()]
    );
    assert_eq!(archive_members(&vec![]), vec!["00_database_info.sql".to_string()]);
}

#[test]
fn tool_arguments_with_password() {
    let args = mysqldump_args("db.local", 3306, "root", "s3", "shop", "/tmp/x/full_backup.sql");
    assert_eq!(
        args,
        vec![
            "--host=db.local",
            "--port=3306",
            "--user=root",
            "--password=s3",
            "--add-drop-database",
            "--add-drop-table",
            "--triggers",
            "--routines",
            "--events",
            "--single-transaction",
            "--databases",
            "shop",
            "--result-file",
            "/tmp/x/full_backup.sql",
        ]
    );
}

#[test]
fn tool_arguments_without_password() {
    let args = mysqldump_args("h", 0, "u", "", "d", "f");
    assert!(args.iter().all(|a| !a.starts_with("--password")));
    assert_eq!(args.len(), 13);
    assert_eq!(args[1], "--port=0");
}
