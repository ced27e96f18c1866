//! The ways a retrieval can fail.

use vstd::prelude::*;

verus! {

/// Why a retrieval stopped. Every failure ends the run; none is retried but
/// the one fetch of the default branch under its older name.
#[derive(Debug, Clone, PartialEq, Eq)]
pub enum RetrievalError {
    /// Neither a positional value nor a repository was given.
    MissingInput,
    /// A browsable URL or a repository locator has none of the accepted shapes.
    InvalidLocator { input: String },
    /// The destination exists and is not a directory.
    DestinationIsFile { path: String },
    /// The destination is a directory that holds at least one entry.
    DestinationNotEmpty { path: String },
    /// No temporary workspace could be made.
    WorkspaceCreationFailed { diagnostic: String },
    /// A step of the external tool ended with a status other than zero.
    ExternalToolFailed { command: String, diagnostic: String },
    /// The branch could not be fetched, under its name or the fallback's.
    FetchFailed { command: String, diagnostic: String },
    /// The checkout does not hold the requested subpath.
    SubpathNotFound { subpath: String },
    /// An entry could not be read or written while copying.
    CopyFailed { diagnostic: String },
    /// The ignore-file could not be read or written.
    IgnoreFileError { diagnostic: String },
}

/// A `RetrievalError` with its texts as character sequences.
pub enum ErrorView {
    MissingInput,
    InvalidLocator { input: Seq<char> },
    DestinationIsFile { path: Seq<char> },
    DestinationNotEmpty { path: Seq<char> },
    WorkspaceCreationFailed { diagnostic: Seq<char> },
    ExternalToolFailed { command: Seq<char>, diagnostic: Seq<char> },
    FetchFailed { command: Seq<char>, diagnostic: Seq<char> },
    SubpathNotFound { subpath: Seq<char> },
    CopyFailed { diagnostic: Seq<char> },
    IgnoreFileError { diagnostic: Seq<char> },
}

impl View for RetrievalError {
    type V = ErrorView;

    open spec fn view(&self) -> ErrorView {
        match *self {
            RetrievalError::MissingInput => ErrorView::MissingInput,
            RetrievalError::InvalidLocator { input } => ErrorView::InvalidLocator { input: input@ },
            RetrievalError::DestinationIsFile { path } => ErrorView::DestinationIsFile {
                path: path@,
            },
            RetrievalError::DestinationNotEmpty { path } => ErrorView::DestinationNotEmpty {
                path: path@,
            },
            RetrievalError::WorkspaceCreationFailed {
                diagnostic,
            } => ErrorView::WorkspaceCreationFailed { diagnostic: diagnostic@ },
            RetrievalError::ExternalToolFailed { command, diagnostic } => {
                ErrorView::ExternalToolFailed { command: command@, diagnostic: diagnostic@ }
            },
            RetrievalError::FetchFailed { command, diagnostic } => ErrorView::FetchFailed {
                command: command@,
                diagnostic: diagnostic@,
            },
            RetrievalError::SubpathNotFound { subpath } => ErrorView::SubpathNotFound {
                subpath: subpath@,
            },
            RetrievalError::CopyFailed { diagnostic } => ErrorView::CopyFailed {
                diagnostic: diagnostic@,
            },
            RetrievalError::IgnoreFileError { diagnostic } => ErrorView::IgnoreFileError {
                diagnostic: diagnostic@,
            },
        }
    }
}

/// The text that an error is reported with. An invalid locator is told the
/// two shapes that are accepted; a failure of the external tool carries the
/// command and what the tool wrote, as it came; a failed copy and a failed read or write
/// of the ignore-file are reported as the caller described them.
pub open spec fn message_text(e: ErrorView) -> Seq<char> {
    match e {
        ErrorView::MissingInput => "缺少输入！请提供 GitHub URL 或使用 --repo 参数\n\n使用示例:\n  git-get https://github.com/owner/repo/tree/main/path/to/dir\n  git-get --repo owner/repo --path path/to/dir"@,
        ErrorView::InvalidLocator { input } => "无效的仓库格式: "@ + input
            + "。支持格式: owner/repo 或 https://github.com/owner/repo.git"@,
        ErrorView::DestinationIsFile { path } => "目标路径已存在且不是目录: "@ + path,
        ErrorView::DestinationNotEmpty { path } => "目标目录已存在且不为空: "@ + path
            + "\n提示: 为了安全起见，git-get 只能写入空目录或不存在的目录"@,
        ErrorView::WorkspaceCreationFailed { diagnostic } => "无法创建临时目录: "@ + diagnostic,
        ErrorView::ExternalToolFailed { command, diagnostic } => command + " 执行失败: "@
            + diagnostic,
        ErrorView::FetchFailed { command, diagnostic } => "无法拉取仓库，请检查仓库地址和分支名是否正确: "@
            + command + " 执行失败: "@ + diagnostic,
        ErrorView::SubpathNotFound { subpath } => "远程仓库中未找到指定子目录: "@ + subpath,
        ErrorView::CopyFailed { diagnostic } => diagnostic,
        ErrorView::IgnoreFileError { diagnostic } => diagnostic,
    }
}

impl RetrievalError {
    /// The text that the error is reported with.
    pub fn message(&self) -> (r: String)
        ensures
            r@ == message_text(self@),
    {
        match self {
            RetrievalError::MissingInput => "缺少输入！请提供 GitHub URL 或使用 --repo 参数\n\n使用示例:\n  git-get https://github.com/owner/repo/tree/main/path/to/dir\n  git-get --repo owner/repo --path path/to/dir".to_owned(),
            RetrievalError::InvalidLocator { input } => {
                let mut text = "无效的仓库格式: ".to_owned();
                text.append(input.as_str());
                text.append("。支持格式: owner/repo 或 https://github.com/owner/repo.git");
                text
            },
            RetrievalError::DestinationIsFile { path } => {
                let mut text = "目标路径已存在且不是目录: ".to_owned();
                text.append(path.as_str());
                text
            },
            RetrievalError::DestinationNotEmpty { path } => {
                let mut text = "目标目录已存在且不为空: ".to_owned();
                text.append(path.as_str());
                text.append("\n提示: 为了安全起见，git-get 只能写入空目录或不存在的目录");
                text
            },
            RetrievalError::WorkspaceCreationFailed { diagnostic } => {
                let mut text = "无法创建临时目录: ".to_owned();
                text.append(diagnostic.as_str());
                text
            },
            RetrievalError::ExternalToolFailed { command, diagnostic } => {
                let mut text = command.clone();
                text.append(" 执行失败: ");
                text.append(diagnostic.as_str());
                text
            },
            RetrievalError::FetchFailed { command, diagnostic } => {
                let mut text = "无法拉取仓库，请检查仓库地址和分支名是否正确: ".to_owned();
                text.append(command.as_str());
                text.append(" 执行失败: ");
                text.append(diagnostic.as_str());
                text
            },
            RetrievalError::SubpathNotFound { subpath } => {
                let mut text = "远程仓库中未找到指定子目录: ".to_owned();
                text.append(subpath.as_str());
                text
            },
            RetrievalError::CopyFailed { diagnostic } => diagnostic.clone(),
            RetrievalError::IgnoreFileError { diagnostic } => diagnostic.clone(),
        }
    }
}

} // verus!
