use cchain::commons::errors::PackageError;
use cchain::commons::naming::HumanReadable;
use cchain::commons::packages::{Package, PackageManager};
use cchain::commons::utility::{
    bookmark_source, chain_target, check_required_packages, keywords_of, parse_selection,
    repository_directory, BookmarkSource, ChainTarget,
};
use cchain::display_control::{DepthGuard, Level};
use cchain::generations::create::ChainCreation;
use cchain::marker::bookmark::{Bookmark, BookmarkError};
use cchain::marker::reference::{is_named_like_chain, ChainReference, ReferenceError, TrackPath};
use cchain::text::{decimal_of, parse_index};

fn bookmark_of(paths: &[&str]) -> Bookmark {
    let mut bookmark = Bookmark::new("/home/me/.cchain".to_string());
    for path in paths {
        bookmark.add_chain_reference(path.to_string(), true, true).unwrap();
    }
    bookmark
}

fn paths_in(bookmark: &Bookmark) -> Vec<String> {
    bookmark.get_chain_references().iter().map(|reference| reference.get_chain_path_string()).collect()
}

#[test]
fn test_chain_files_are_known_by_their_names() {
    assert!(is_named_like_chain("/a/b/cchain_build.json"));
    assert!(is_named_like_chain("cchain_.json"));
    assert!(is_named_like_chain("cchain_a.tar.json"));
    assert!(!is_named_like_chain("/a/cchain_build.json/other.json"));
    assert!(!is_named_like_chain("/a/cchain_build.JSON"));
    assert!(!is_named_like_chain("/a/cchain_build"));
    assert!(!is_named_like_chain("/a/chain_build.json"));
    assert!(!is_named_like_chain("/a/cchain_json"));
}

#[test]
fn test_references_are_made_of_what_is_found() {
    let reference = ChainReference::from_probe("/x/cchain_a.json", true, true).unwrap();
    assert_eq!(reference.get_chain_path_string(), "/x/cchain_a.json");
    assert_eq!(reference.get_path(), "/x/cchain_a.json");
    assert_eq!(ChainReference::new("p".to_string()).get_chain_path_string(), "p");
    let missing = ChainReference::from_probe("/x/cchain_a.json", false, false).unwrap_err();
    assert!(matches!(missing, ReferenceError::DoesNotExist { .. }));
    assert_eq!(missing.message(), "Chain at /x/cchain_a.json does not exist");
    let directory = ChainReference::from_probe("/x/cchain_a.json", true, false).unwrap_err();
    assert_eq!(directory.message(), "Chain at /x/cchain_a.json has a wrong naming convention");
    assert!(matches!(
        ChainReference::from_probe("/x/other.json", true, true),
        Err(ReferenceError::WrongNaming { .. })
    ));
}

#[test]
fn test_names_for_people_come_from_file_names() {
    let reference = ChainReference::new("/x/y/cchain_git_commit_all.json".to_string());
    assert_eq!(reference.get_raw_name(), "cchain_git_commit_all.json");
    assert_eq!(reference.get_human_readable_name(), " Git Commit All");
    let plain = ChainReference::new("notes_today.txt".to_string());
    assert_eq!(plain.get_human_readable_name(), "Notes Today.txt");
}

#[test]
fn test_bookmark_refuses_duplicates_and_bad_paths() {
    let mut bookmark = bookmark_of(&["/x/cchain_a.json"]);
    let again = bookmark.add_chain_reference("/x/cchain_a.json".to_string(), true, true);
    assert_eq!(
        again.unwrap_err().message(),
        "Configuration is likely duplicated: /x/cchain_a.json"
    );
    assert!(matches!(
        bookmark.add_chain_reference("/x/cchain_b.json".to_string(), false, false),
        Err(BookmarkError::Reference(ReferenceError::DoesNotExist { .. }))
    ));
    assert!(matches!(
        bookmark.add_chain_reference("/x/b.json".to_string(), true, true),
        Err(BookmarkError::Reference(ReferenceError::WrongNaming { .. }))
    ));
    assert_eq!(paths_in(&bookmark), vec!["/x/cchain_a.json"]);
    assert_eq!(bookmark.get_bookmark_path(), "/home/me/.cchain");
}

#[test]
fn test_bookmark_removes_by_index_and_by_path() {
    let mut bookmark = bookmark_of(&["/cchain_a.json", "/cchain_b.json", "/cchain_c.json"]);
    assert_eq!(
        bookmark.remove_chain_reference_by_index(3).unwrap_err().message(),
        "Index out of bounds: 3"
    );
    bookmark.remove_chain_reference_by_index(1).unwrap();
    assert_eq!(paths_in(&bookmark), vec!["/cchain_a.json", "/cchain_c.json"]);
    assert_eq!(
        bookmark.remove_chain_reference_by_path("/cchain_b.json").unwrap_err().message(),
        "Configuration path not found: /cchain_b.json"
    );
    bookmark.remove_chain_reference_by_path("/cchain_a.json").unwrap();
    assert_eq!(paths_in(&bookmark), vec!["/cchain_c.json"]);
    assert_eq!(
        bookmark.get_chain_reference_by_index(0).unwrap().get_chain_path_string(),
        "/cchain_c.json"
    );
    assert!(bookmark.get_chain_reference_by_index(1).is_none());
}

#[test]
fn test_invalid_paths_are_those_where_nothing_is_found() {
    let bookmark = bookmark_of(&["/cchain_a.json", "/cchain_b.json", "/cchain_c.json"]);
    assert_eq!(
        bookmark.get_invalid_paths(&vec![false, true, false]),
        vec!["/cchain_a.json", "/cchain_c.json"]
    );
    assert!(bookmark.get_invalid_paths(&vec![true, true, true]).is_empty());
}

#[test]
fn test_keyword_search_ranks_by_matching_keywords() {
    let bookmark = bookmark_of(&[
        "/x/cchain_git_commit.json",
        "/x/cchain_docker_build.json",
        "/x/cchain_git_push_all.json",
        "/x/cchain_commit_push_git.json",
    ]);
    let search = |words: &[&str]| -> Vec<String> {
        bookmark
            .get_chains_by_keywords(words.iter().map(|word| word.to_string()).collect())
            .unwrap()
            .iter()
            .map(|reference| reference.get_chain_path_string())
            .collect()
    };
    assert_eq!(
        search(&["GIT", "push"]),
        vec![
            "/x/cchain_git_push_all.json",
            "/x/cchain_commit_push_git.json",
            "/x/cchain_git_commit.json",
        ]
    );
    assert_eq!(search(&["build"]), vec!["/x/cchain_docker_build.json"]);
    assert!(search(&["nothing"]).is_empty());
    assert!(search(&[""]).is_empty());
    assert!(search(&[]).is_empty());
    assert_eq!(search(&["git", "git"])[0], "/x/cchain_git_commit.json");
    assert_eq!(bookmark.rank_by_keywords(&vec!["commit".to_string()]), vec![0, 3]);
}

#[test]
fn test_packages_are_listed_once_per_line() {
    let names = |packages: Vec<Package>| -> Vec<String> {
        packages.iter().map(|package| package.access_package_name().to_string()).collect()
    };
    assert_eq!(names(Package::from_listing("ls\r\ngit\nls\n\ncargo")), vec!["ls", "git", "", "cargo"]);
    assert_eq!(names(Package::from_listing("a\nb\r")), vec!["a", "b\r"]);
    assert!(Package::from_listing("").is_empty());
    let required = vec![Package::new("git".to_string()), Package::new("jq".to_string()), Package::new("fd".to_string())];
    let available = Package::from_listing("git\nls\n");
    assert_eq!(names(Package::missing(&required, &available)), vec!["jq", "fd"]);
}

#[test]
fn test_missing_packages_are_counted_and_listed() {
    assert!(check_required_packages(&vec![], "cchain_a.json").is_ok());
    let missing = vec![Package::new("jq".to_string()), Package::new("fd".to_string())];
    let error = check_required_packages(&missing, "cchain_a.json").unwrap_err();
    assert_eq!(
        error.message(),
        "2 required packages are missing in cchain_a.json. Please install the following packages:\n    - jq\n    - fd"
    );
}

#[test]
fn test_package_managers_know_their_commands() {
    let apt = PackageManager { name: "apt".to_string(), path: "/usr/bin/apt".to_string() };
    assert_eq!(apt.install_command("jq").unwrap(), "sudo apt-get install -y jq");
    let winget = PackageManager { name: "winget".to_string(), path: String::new() };
    assert_eq!(winget.install_command("jq").unwrap(), "winget install --id jq");
    let other = PackageManager { name: "nix".to_string(), path: String::new() };
    assert_eq!(other.install_command("jq").unwrap_err().message(), "Unsupported package manager: nix");
}

#[test]
fn test_package_managers_are_looked_for_by_platform() {
    assert_eq!(PackageManager::candidates("macos").unwrap(), vec!["brew", "MacPorts"]);
    assert_eq!(PackageManager::candidates("linux").unwrap().len(), 7);
    assert_eq!(PackageManager::candidates("windows").unwrap(), vec!["choco", "scoop", "winget"]);
    assert_eq!(
        PackageManager::candidates("plan9").unwrap_err().message(),
        "Unsupported OS platform: plan9. Please install a package manager, or file an issue on GitHub."
    );
    let found = PackageManager::get_available_package_managers(
        "windows",
        &vec![None, Some("C:/scoop".to_string()), Some("C:/winget".to_string())],
    )
    .unwrap();
    assert_eq!(found.len(), 2);
    assert_eq!((found[0].name.as_str(), found[0].path.as_str()), ("scoop", "C:/scoop"));
    assert!(matches!(
        PackageManager::get_available_package_managers("macos", &vec![None, None]),
        Err(PackageError::NoPackageManager)
    ));
    assert_eq!(PackageError::NoPackageManager.message(), "No package managers detected.");
}

#[test]
fn test_sources_targets_and_selections() {
    assert_eq!(bookmark_source("https://github.com/a/b"), BookmarkSource::Remote);
    assert_eq!(bookmark_source("./chains"), BookmarkSource::Local);
    assert_eq!(repository_directory("https://github.com/a/chains"), "chains");
    assert_eq!(repository_directory("plain"), "plain");
    assert_eq!(keywords_of("  git   push\tall "), vec!["git", "push", "all"]);
    assert!(keywords_of("   ").is_empty());
    assert!(matches!(chain_target("12"), ChainTarget::Index(12)));
    assert!(matches!(chain_target("+3"), ChainTarget::Index(3)));
    assert!(matches!(chain_target("1 2"), ChainTarget::Named(name) if name == "1 2"));
    assert!(matches!(chain_target(""), ChainTarget::Named(_)));
    assert_eq!(parse_selection(" 2\n", 3), Some(1));
    assert_eq!(parse_selection("0", 3), None);
    assert_eq!(parse_selection("4", 3), None);
    assert_eq!(parse_selection("two", 3), None);
}

#[test]
fn test_numbers_are_read_and_written_in_decimal() {
    assert_eq!(decimal_of(0), "0");
    assert_eq!(decimal_of(907), "907");
    assert_eq!(decimal_of(usize::MAX), usize::MAX.to_string());
    assert_eq!(parse_index("007"), Some(7));
    assert_eq!(parse_index(&usize::MAX.to_string()), Some(usize::MAX));
    assert_eq!(parse_index(&format!("{}0", usize::MAX)), None);
    assert_eq!(parse_index("18446744073709551616"), "18446744073709551616".parse::<usize>().ok());
    assert_eq!(parse_index("+"), None);
    assert_eq!(parse_index("-1"), None);
    assert_eq!(parse_index("1_0"), None);
    assert_eq!(parse_index(" 1"), None);
}

#[test]
fn test_new_chains_are_named_and_filled_from_the_template() {
    assert_eq!(ChainCreation::new(None).create_filename(), "cchain_template.json");
    assert_eq!(ChainCreation::new(Some("deploy".to_string())).create_filename(), "cchain_deploy.json");
    let template = ChainCreation::new(None).get_template_objects();
    assert_eq!(template.len(), 2);
    assert_eq!(template[0].command_line.to_string(), "example_command arg1 arg2");
    assert_eq!(template[0].stdout_stored_to.as_deref(), Some("<<hi>>"));
    assert_eq!(template[0].retry, 3);
    assert_eq!(template[1].command_line.to_string(), "another_command argA argB");
    assert_eq!(template[1].retry, 5);
    let request = ChainCreation::generation_request("[]", "build it");
    assert!(request.starts_with("\n            This is a chain example: []\n"));
    assert!(request.ends_with("based on this request: build it"));
    assert!(request.contains("- `arguments`: Parameters including {variable} placeholders"));
}

#[test]
fn test_messages_are_indented_by_depth() {
    let top = DepthGuard::new();
    assert_eq!(top.indentation(), ">> ");
    assert_eq!(top.enter().enter().indentation(), ">> >> >> ");
    assert_eq!(DepthGuard { depth: usize::MAX }.enter().depth, usize::MAX);
    assert_eq!(DepthGuard { depth: 0 }.indentation(), "");
    assert!(Level::Warn != Level::Error);
}
