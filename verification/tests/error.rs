use git_get::error::RetrievalError;

#[test]
fn invalid_locator_names_the_accepted_shapes() {
    let text = RetrievalError::InvalidLocator { input: "a/b/c".to_string() }.message();
    assert_eq!(
        text,
        "无效的仓库格式: a/b/c。支持格式: owner/repo 或 https://github.com/owner/repo.git"
    );
    assert!(text.contains("owner/repo"));
    assert!(text.contains("https://github.com/owner/repo.git"));
}

#[test]
fn tool_failures_carry_command_and_diagnostic() {
    assert_eq!(
        RetrievalError::ExternalToolFailed {
            command: "git init".to_string(),
            diagnostic: "fatal: x".to_string(),
        }
        .message(),
        "git init 执行失败: fatal: x"
    );
    assert_eq!(
        RetrievalError::FetchFailed {
            command: "git fetch --depth=1 origin master".to_string(),
            diagnostic: "fatal: y".to_string(),
        }
        .message(),
        "无法拉取仓库，请检查仓库地址和分支名是否正确: git fetch --depth=1 origin master 执行失败: fatal: y"
    );
}

#[test]
fn every_error_has_its_text() {
    let d = || "why".to_string();
    assert_eq!(
        RetrievalError::MissingInput.message(),
        "缺少输入！请提供 GitHub URL 或使用 --repo 参数\n\n使用示例:\n  git-get https://github.com/owner/repo/tree/main/path/to/dir\n  git-get --repo owner/repo --path path/to/dir"
    );
    assert_eq!(
        RetrievalError::DestinationIsFile { path: d() }.message(),
        "目标路径已存在且不是目录: why"
    );
    assert_eq!(
        RetrievalError::DestinationNotEmpty { path: d() }.message(),
        "目标目录已存在且不为空: why\n提示: 为了安全起见，git-get 只能写入空目录或不存在的目录"
    );
    assert_eq!(
        RetrievalError::WorkspaceCreationFailed { diagnostic: d() }.message(),
        "无法创建临时目录: why"
    );
    assert_eq!(
        RetrievalError::SubpathNotFound { subpath: d() }.message(),
        "远程仓库中未找到指定子目录: why"
    );
    assert_eq!(RetrievalError::CopyFailed { diagnostic: d() }.message(), "why");
    assert_eq!(RetrievalError::IgnoreFileError { diagnostic: d() }.message(), "why");
}
