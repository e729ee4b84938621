use apiari::repos::{
    ahead_behind_counts, build_repo_list_items, listed_name, origin_slug, repo_base_name,
    repo_slug_to_local_path, workers_of_repo, RepoDir, RepoFacts, RepoPlace,
};

#[test]
fn repo_slug_to_local_path_prefers_matching_origin_over_workspace_root() {
    let dirs = vec![RepoDir {
        path: "/tmp/apiari/common".to_string(),
        origin: Some("git@github.com:ApiariTools/apiari-common.git".to_string()),
    }];
    match repo_slug_to_local_path("ApiariTools/apiari-common", false, false, &dirs) {
        RepoPlace::Dir(path) => assert_eq!(path, "/tmp/apiari/common"),
        _ => panic!("not found by its origin"),
    }
}

#[test]
fn repo_places_are_tried_in_order() {
    let dirs = vec![RepoDir {
        path: "/ws/x".to_string(),
        origin: Some("https://github.com/org/repo.git".to_string()),
    }];
    assert!(matches!(repo_slug_to_local_path("org/repo", true, true, &dirs), RepoPlace::Direct));
    assert!(matches!(repo_slug_to_local_path("org/repo", false, true, &dirs), RepoPlace::ByName));
    assert!(matches!(repo_slug_to_local_path("org/repo", false, false, &dirs), RepoPlace::Dir(_)));
    assert!(matches!(repo_slug_to_local_path("org/other", false, false, &dirs), RepoPlace::Root));
}

#[test]
fn origins_name_their_repository() {
    assert_eq!(
        origin_slug("git@github.com:ApiariTools/apiari.git").as_deref(),
        Some("ApiariTools/apiari")
    );
    assert_eq!(origin_slug("https://github.com/org/repo").as_deref(), Some("org/repo"));
    assert_eq!(repo_base_name("org/repo"), "repo");
    assert_eq!(repo_base_name("repo"), "repo");
}

fn repo_facts(repo: &str, path: &str, dir_name: &str) -> RepoFacts {
    RepoFacts {
        repo: repo.to_string(),
        path: path.to_string(),
        dir_name: Some(dir_name.to_string()),
        has_swarm: false,
        is_clean: true,
        branch: "main".to_string(),
        upstream: None,
        counts: None,
    }
}

#[test]
fn build_repo_list_items_uses_local_dir_name_without_duplicate_root_repo() {
    let facts = vec![
        repo_facts("ApiariTools/apiari", "/tmp/apiari", "apiari"),
        repo_facts("ApiariTools/apiari-common", "/tmp/apiari/common", "common"),
    ];
    let ids = vec!["worker-apiari", "worker-common"];
    let branches = vec!["apiari/fix-http".to_string(), "common/fix-sdk".to_string()];

    let repos = build_repo_list_items(&facts, &branches);
    let names: Vec<_> = repos.iter().map(|repo| repo.name.as_str()).collect();

    assert_eq!(names, vec!["apiari", "common"]);
    assert_eq!(repos[0].path, "/tmp/apiari");
    assert_eq!(repos[1].path, "/tmp/apiari/common");
    assert_eq!(repos[0].workers.len(), 1);
    assert_eq!(ids[repos[0].workers[0]], "worker-apiari");
    assert_eq!(repos[1].workers.len(), 1);
    assert_eq!(ids[repos[1].workers[0]], "worker-common");
}

#[test]
fn counts_need_an_upstream() {
    let mut f = repo_facts("org/repo", "/ws/repo", "repo");
    f.counts = Some("2\t3\n".to_string());
    let items = build_repo_list_items(&vec![f], &vec![]);
    assert_eq!((items[0].ahead_count, items[0].behind_count), (0, 0));
    let mut f = repo_facts("org/repo", "/ws/repo", "repo");
    f.upstream = Some("origin/main".to_string());
    f.counts = Some("2\t3\n".to_string());
    let items = build_repo_list_items(&vec![f], &vec![]);
    assert_eq!((items[0].ahead_count, items[0].behind_count), (3, 2));
}

#[test]
fn git_ahead_behind_counts_reports_tracking_delta_without_github_api() {
    assert_eq!(ahead_behind_counts(&Some("1\t1\n".to_string())), (1, 1));
    assert_eq!(ahead_behind_counts(&Some("4\t7".to_string())), (7, 4));
    assert_eq!(ahead_behind_counts(&Some("x 7".to_string())), (7, 0));
    assert_eq!(ahead_behind_counts(&None), (0, 0));
}

#[test]
fn repositories_are_listed_by_directory() {
    assert_eq!(listed_name(&Some("common".to_string()), "org/apiari-common"), "common");
    assert_eq!(listed_name(&Some(String::new()), "org/apiari-common"), "apiari-common");
    assert_eq!(listed_name(&None, "org/apiari-common"), "apiari-common");
    let branches = vec!["api/a".to_string(), "web/b".to_string(), "apix".to_string()];
    assert_eq!(workers_of_repo(&branches, "api"), vec![0, 2]);
}
