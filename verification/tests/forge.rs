use balatro_mod_index::forge::{Forge, Tree};

#[test]
fn default_tree_is_the_community_index() {
    let tree = Tree::default();
    assert_eq!(
        tree,
        Tree {
            hostname: "gitlab.com",
            namespace: "balatro-mod-index",
            name: "repo",
            rev: "main",
            forge: Forge::GitLab,
        }
    );
}

#[test]
fn batch_url_names_the_lfs_endpoint() {
    let tree = Tree {
        hostname: "github.com",
        namespace: "kasimeka",
        name: "bmm-index-ng",
        rev: "main",
        forge: Forge::GitHub,
    };
    assert_eq!(
        tree.batch_url(),
        "https://github.com/kasimeka/bmm-index-ng.git/info/lfs/objects/batch"
    );
    assert_eq!(
        Tree::default().batch_url(),
        "https://gitlab.com/balatro-mod-index/repo.git/info/lfs/objects/batch"
    );
}

#[test]
fn archive_url_follows_the_forge() {
    let hub = Tree {
        hostname: "github.com",
        namespace: "kasimeka",
        name: "bmm-index-ng",
        rev: "dev",
        forge: Forge::GitHub,
    };
    assert_eq!(
        hub.archive_url(),
        "https://github.com/kasimeka/bmm-index-ng/archive/refs/heads/dev.zip"
    );
    assert_eq!(
        Tree::default().archive_url(),
        "https://gitlab.com/api/v4/projects/balatro-mod-index%2Frepo/repository/archive.zip?include_lfs_blobs=false&sha=main"
    );
}
