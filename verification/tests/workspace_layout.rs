use reportal::error::ReportalError;
use reportal::workspace_layout::{
    decide_member_link, materialize_workspace_layout, workspace_file_path_inside_dir, ExistingLinkPath, LinkAction,
    WorkspaceLayoutParameters, WorkspaceLinkSpec,
};

#[test]
fn workspace_file_path_inside_dir_composes_expected_name() {
    let workspace_file = workspace_file_path_inside_dir("/workspaces/nro", "nro");
    assert_eq!(workspace_file, "/workspaces/nro/nro.code-workspace");
}

#[test]
fn workspace_file_path_inside_dir_handles_trailing_separator() {
    assert_eq!(workspace_file_path_inside_dir("/workspaces/nro/", "nro"), "/workspaces/nro/nro.code-workspace");
}

#[test]
fn materialize_layout_plans_links_folders_and_file() {
    let member_links = vec![
        WorkspaceLinkSpec { link_name: "alpha".to_owned(), target_absolute_path: "/repos/alpha".to_owned() },
        WorkspaceLinkSpec { link_name: "bravo".to_owned(), target_absolute_path: "/repos/bravo".to_owned() },
        WorkspaceLinkSpec { link_name: "charlie".to_owned(), target_absolute_path: "/repos/charlie".to_owned() },
    ];
    let plan = materialize_workspace_layout(&WorkspaceLayoutParameters {
        workspace_directory: "/workspaces/nro",
        workspace_name: "nro",
        member_links: &member_links,
        window_title_override: None,
        title_bar_color_hex: None,
    });
    assert_eq!(plan.workspace_directory, "/workspaces/nro");
    assert_eq!(plan.workspace_file_path, "/workspaces/nro/nro.code-workspace");
    assert_eq!(
        plan.member_links,
        vec![
            ("/workspaces/nro/alpha".to_owned(), "/repos/alpha".to_owned()),
            ("/workspaces/nro/bravo".to_owned(), "/repos/bravo".to_owned()),
            ("/workspaces/nro/charlie".to_owned(), "/repos/charlie".to_owned()),
        ]
    );
    assert_eq!(plan.folder_paths, vec!["./alpha".to_owned(), "./bravo".to_owned(), "./charlie".to_owned()]);
    assert!(plan.window_identity.is_none());
}

#[test]
fn materialize_layout_carries_window_identity() {
    let plan = materialize_workspace_layout(&WorkspaceLayoutParameters {
        workspace_directory: "/w",
        workspace_name: "x",
        member_links: &[],
        window_title_override: Some("Title"),
        title_bar_color_hex: Some("#112233"),
    });
    assert_eq!(plan.window_identity, Some(("Title".to_owned(), Some("#112233".to_owned()))));
    assert!(plan.member_links.is_empty());
}

#[test]
fn member_link_is_replaced_when_stale_and_kept_on_the_next_run() {
    let stale = decide_member_link(
        "/ws/nro/alpha",
        "/repos/real",
        ExistingLinkPath::Symlink { current_target: "/repos/stale".to_owned() },
    );
    assert!(matches!(stale, LinkAction::Replace));
    let again = decide_member_link(
        "/ws/nro/alpha",
        "/repos/real",
        ExistingLinkPath::Symlink { current_target: "/repos/real/".to_owned() },
    );
    assert!(matches!(again, LinkAction::Keep));
    assert!(matches!(decide_member_link("/ws/nro/alpha", "/repos/real", ExistingLinkPath::Absent), LinkAction::Create));
    assert!(matches!(
        decide_member_link("/ws/nro/alpha", "/repos/real", ExistingLinkPath::Directory { resolves_to_expected: true }),
        LinkAction::Keep
    ));
}

#[test]
fn member_link_refuses_to_clobber_real_data() {
    let refused = decide_member_link("/ws/nro/alpha", "/repos/real", ExistingLinkPath::Other);
    assert!(matches!(refused, LinkAction::Fail(ReportalError::ValidationFailure { field, reason })
        if field == "workspace member link"
            && reason == "'/ws/nro/alpha' already exists and is not a reportal-managed symlink; refusing to clobber — move the file out of the workspace directory and retry"));
    let unreadable = decide_member_link(
        "/ws/nro/alpha",
        "/repos/real",
        ExistingLinkPath::Unreadable("permission denied".to_owned()),
    );
    assert!(matches!(unreadable, LinkAction::Fail(ReportalError::CodeWorkspaceIoFailure { file_path, reason })
        if file_path == "/ws/nro/alpha" && reason == "permission denied"));
    assert!(matches!(
        decide_member_link("/ws/nro/alpha", "/repos/real", ExistingLinkPath::Directory { resolves_to_expected: false }),
        LinkAction::Fail(ReportalError::ValidationFailure { .. })
    ));
}
