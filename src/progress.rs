//! Progress reports: the fixed checkpoints of a backup run and the
//! percentages of the per-table phases.

use vstd::prelude::*;

verus! {

broadcast use vstd::string::to_string_from_display_ensures_for_str;

/// One progress report.
pub struct ProgressEvent {
    /// How far the run has come, from 0 to 100.
    pub percent: u8,
    pub status: String,
    /// The table being worked on, where there is one.
    pub current_table: Option<String>,
}

/// The fixed checkpoints of a backup run.
#[derive(PartialEq, Eq, Structural, Clone, Copy, Debug)]
pub enum Stage {
    /// The request was accepted.
    Preparing,
    /// The built-in generator starts.
    BuiltinStarting,
    /// The external tool strategy starts.
    ToolStarting,
    Connecting,
    ConnectFailed,
    ConnectionUnavailable,
    AnalysingSchema,
    TableListFailed,
    NoTables,
    TablesStarting,
    /// The external tool is exporting the database.
    ToolRunning,
    /// The external tool finished; the archive is being created.
    ToolCaptured,
    ToolCompressing,
    TablesDone,
    CompressingInfo,
    Finishing,
    ToolFinishing,
    Done,
}

/// The percentage reported at a checkpoint.
pub open spec fn stage_percent(stage: Stage) -> u8 {
    match stage {
        Stage::Preparing => 0,
        Stage::BuiltinStarting => 5,
        Stage::ToolStarting => 5,
        Stage::Connecting => 10,
        Stage::ConnectFailed => 0,
        Stage::ConnectionUnavailable => 0,
        Stage::AnalysingSchema => 15,
        Stage::TableListFailed => 0,
        Stage::NoTables => 20,
        Stage::TablesStarting => 20,
        Stage::ToolRunning => 20,
        Stage::ToolCaptured => 60,
        Stage::ToolCompressing => 70,
        Stage::TablesDone => 70,
        Stage::CompressingInfo => 75,
        Stage::Finishing => 95,
        Stage::ToolFinishing => 90,
        Stage::Done => 100,
    }
}

/// The status message of a checkpoint.
pub open spec fn stage_status(stage: Stage) -> Seq<char> {
    match stage {
        Stage::Preparing => "正在准备备份..."@,
        Stage::BuiltinStarting => "准备使用内置工具备份..."@,
        Stage::ToolStarting => "准备使用系统mysqldump工具备份..."@,
        Stage::Connecting => "连接数据库..."@,
        Stage::ConnectFailed => "连接数据库失败"@,
        Stage::ConnectionUnavailable => "获取数据库连接失败"@,
        Stage::AnalysingSchema => "分析数据库结构..."@,
        Stage::TableListFailed => "获取表列表失败"@,
        Stage::NoTables => "数据库中没有表"@,
        Stage::TablesStarting => "开始备份表结构和数据..."@,
        Stage::ToolRunning => "正在使用mysqldump导出数据库..."@,
        Stage::ToolCaptured => "导出完成，正在创建ZIP文件..."@,
        Stage::ToolCompressing => "正在压缩备份数据..."@,
        Stage::TablesDone => "表备份完成，正在创建ZIP文件..."@,
        Stage::CompressingInfo => "正在压缩数据库信息..."@,
        Stage::Finishing => "正在完成ZIP文件..."@,
        Stage::ToolFinishing => "正在完成ZIP文件..."@,
        Stage::Done => "备份完成"@,
    }
}

fn stage_text(stage: Stage) -> (r: &'static str)
    ensures
        r@ == stage_status(stage),
{
    match stage {
        Stage::Preparing => "正在准备备份...",
        Stage::BuiltinStarting => "准备使用内置工具备份...",
        Stage::ToolStarting => "准备使用系统mysqldump工具备份...",
        Stage::Connecting => "连接数据库...",
        Stage::ConnectFailed => "连接数据库失败",
        Stage::ConnectionUnavailable => "获取数据库连接失败",
        Stage::AnalysingSchema => "分析数据库结构...",
        Stage::TableListFailed => "获取表列表失败",
        Stage::NoTables => "数据库中没有表",
        Stage::TablesStarting => "开始备份表结构和数据...",
        Stage::ToolRunning => "正在使用mysqldump导出数据库...",
        Stage::ToolCaptured => "导出完成，正在创建ZIP文件...",
        Stage::ToolCompressing => "正在压缩备份数据...",
        Stage::TablesDone => "表备份完成，正在创建ZIP文件...",
        Stage::CompressingInfo => "正在压缩数据库信息...",
        Stage::Finishing => "正在完成ZIP文件...",
        Stage::ToolFinishing => "正在完成ZIP文件...",
        Stage::Done => "备份完成",
    }
}

/// The report of a checkpoint.
pub fn stage_event(stage: Stage) -> (e: ProgressEvent)
    ensures
        e.percent == stage_percent(stage),
        e.status@ == stage_status(stage),
        e.current_table is None,
{
    let percent: u8 = match stage {
        Stage::Preparing => 0,
        Stage::BuiltinStarting => 5,
        Stage::ToolStarting => 5,
        Stage::Connecting => 10,
        Stage::ConnectFailed => 0,
        Stage::ConnectionUnavailable => 0,
        Stage::AnalysingSchema => 15,
        Stage::TableListFailed => 0,
        Stage::NoTables => 20,
        Stage::TablesStarting => 20,
        Stage::ToolRunning => 20,
        Stage::ToolCaptured => 60,
        Stage::ToolCompressing => 70,
        Stage::TablesDone => 70,
        Stage::CompressingInfo => 75,
        Stage::Finishing => 95,
        Stage::ToolFinishing => 90,
        Stage::Done => 100,
    };
    ProgressEvent { percent, status: stage_text(stage).to_string(), current_table: None }
}

/// Where the table loop stands: `base + index / total * span`, rounded down.
pub open spec fn window_percent(base: nat, span: nat, index: nat, total: nat) -> nat
    recommends
        total > 0,
{
    base + index * span / total
}

/// The percentage while backing up table `index` of `total`: the loop
/// occupies 20 to 70.
pub fn table_percent(index: usize, total: usize) -> (p: u8)
    requires
        index < total,
    ensures
        p == window_percent(20, 50, index as nat, total as nat),
        20 <= p < 70,
{
    let q: u128 = (index as u128) * 50 / (total as u128);
    proof {
        assert((index as nat) * 50 / (total as nat) < 50) by (nonlinear_arith)
            requires index < total;
    }
    (20 + q) as u8
}

/// The percentage while compressing table `index` of `total`: 75 to 95.
pub fn archive_percent(index: usize, total: usize) -> (p: u8)
    requires
        index < total,
    ensures
        p == window_percent(75, 20, index as nat, total as nat),
        75 <= p < 95,
{
    let q: u128 = (index as u128) * 20 / (total as u128);
    proof {
        assert((index as nat) * 20 / (total as nat) < 20) by (nonlinear_arith)
            requires index < total;
    }
    (75 + q) as u8
}

/// A report about one table: a status message and where the run stands.
pub fn table_event(status: &str, table: &str, percent: u8) -> (e: ProgressEvent)
    ensures
        e.percent == percent,
        e.status@ == status@,
        e.current_table matches Some(t) && t@ == table@,
{
    ProgressEvent { percent, status: status.to_string(), current_table: Some(table.to_string()) }
}

} // verus!
