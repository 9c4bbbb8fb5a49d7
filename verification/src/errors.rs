//! The planner's refusals, each with the message shown to the user.
use vstd::prelude::*;

verus! {

/// Why the planner refuses a request.
#[derive(Clone, Copy, PartialEq, Eq, Structural, Debug)]
pub enum PlannerError {
    TaskTitleEmpty,
    InvalidPriority,
    InvalidStatus,
    TaskNotFound,
    DailyItemEmpty,
    CategoryTitleEmpty,
    ParentCategoryMissing,
    CategoryTooDeep,
    CategoryNotFound,
    FileTooLarge,
    UploadCategoryMissing,
    UploadNeedsSubcategory,
    ProjectTitleEmpty,
    ProjectNotFound,
    StudyMinutesNotPositive,
    ImageSizeInvalid,
    ImageFormatUnsupported,
    DateFormatInvalid,
    DocumentPathOutside,
    ItemTypeInvalid,
    PathNotAbsolute,
    InvalidBackupMode,
    YuqueTokenMissing,
    YuqueTargetIncomplete,
}

/// The message shown for each refusal.
pub open spec fn message_of(e: PlannerError) -> Seq<char> {
    match e {
        PlannerError::TaskTitleEmpty => "任务标题不能为空"@,
        PlannerError::InvalidPriority => "无效的优先级"@,
        PlannerError::InvalidStatus => "无效的任务状态"@,
        PlannerError::TaskNotFound => "任务不存在"@,
        PlannerError::DailyItemEmpty => "每日安排不能为空"@,
        PlannerError::CategoryTitleEmpty => "分类名称不能为空"@,
        PlannerError::ParentCategoryMissing => "上级分类不存在"@,
        PlannerError::CategoryTooDeep => "仅支持大类和小类两级"@,
        PlannerError::CategoryNotFound => "分类不存在"@,
        PlannerError::FileTooLarge => "单个文档不能超过 100MB"@,
        PlannerError::UploadCategoryMissing => "小知识库分类不存在"@,
        PlannerError::UploadNeedsSubcategory => "文档只能上传到小知识库分类"@,
        PlannerError::ProjectTitleEmpty => "项目名称不能为空"@,
        PlannerError::ProjectNotFound => "项目不存在"@,
        PlannerError::StudyMinutesNotPositive => "学习时间必须大于 0"@,
        PlannerError::ImageSizeInvalid => "图片为空或超过 25MB"@,
        PlannerError::ImageFormatUnsupported => "不支持的图片格式"@,
        PlannerError::DateFormatInvalid => "日期格式无效"@,
        PlannerError::DocumentPathOutside => "文档路径超出笔记目录"@,
        PlannerError::ItemTypeInvalid => "类型无效"@,
        PlannerError::PathNotAbsolute => "请输入完整的绝对路径"@,
        PlannerError::InvalidBackupMode => "无效的备份频率"@,
        PlannerError::YuqueTokenMissing => "请先配置语雀 Token"@,
        PlannerError::YuqueTargetIncomplete => "请填写语雀账号/空间和知识库路径"@,
    }
}

impl PlannerError {
    /// The message shown to the user for this refusal.
    pub fn message(&self) -> (m: String)
        ensures
            m@ == message_of(*self),
    {
        let text: &str = match self {
            PlannerError::TaskTitleEmpty => "任务标题不能为空",
            PlannerError::InvalidPriority => "无效的优先级",
            PlannerError::InvalidStatus => "无效的任务状态",
            PlannerError::TaskNotFound => "任务不存在",
            PlannerError::DailyItemEmpty => "每日安排不能为空",
            PlannerError::CategoryTitleEmpty => "分类名称不能为空",
            PlannerError::ParentCategoryMissing => "上级分类不存在",
            PlannerError::CategoryTooDeep => "仅支持大类和小类两级",
            PlannerError::CategoryNotFound => "分类不存在",
            PlannerError::FileTooLarge => "单个文档不能超过 100MB",
            PlannerError::UploadCategoryMissing => "小知识库分类不存在",
            PlannerError::UploadNeedsSubcategory => "文档只能上传到小知识库分类",
            PlannerError::ProjectTitleEmpty => "项目名称不能为空",
            PlannerError::ProjectNotFound => "项目不存在",
            PlannerError::StudyMinutesNotPositive => "学习时间必须大于 0",
            PlannerError::ImageSizeInvalid => "图片为空或超过 25MB",
            PlannerError::ImageFormatUnsupported => "不支持的图片格式",
            PlannerError::DateFormatInvalid => "日期格式无效",
            PlannerError::DocumentPathOutside => "文档路径超出笔记目录",
            PlannerError::ItemTypeInvalid => "类型无效",
            PlannerError::PathNotAbsolute => "请输入完整的绝对路径",
            PlannerError::InvalidBackupMode => "无效的备份频率",
            PlannerError::YuqueTokenMissing => "请先配置语雀 Token",
            PlannerError::YuqueTargetIncomplete => "请填写语雀账号/空间和知识库路径",
        };
        text.to_owned()
    }
}

} // verus!
