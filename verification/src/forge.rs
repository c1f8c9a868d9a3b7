//! Where an index lives: one snapshot of one repository on a forge.

use vstd::prelude::*;
use vstd::string::StringExecFns;

verus! {

/// The kind of forge, which decides the shape of its archive URL.
#[derive(Debug, Clone, Copy, PartialEq, Eq, Hash)]
pub enum Forge {
    GitHub,
    GitLab,
}

/// One revision of one repository on one host.
#[derive(Debug, Clone, Copy, PartialEq, Eq, Hash)]
pub struct Tree<'a> {
    pub hostname: &'a str,
    pub namespace: &'a str,
    pub name: &'a str,
    pub rev: &'a str,
    pub forge: Forge,
}

/// A tree as contracts see it.
pub struct TreeView {
    pub hostname: Seq<char>,
    pub namespace: Seq<char>,
    pub name: Seq<char>,
    pub rev: Seq<char>,
    pub forge: Forge,
}

impl<'a> View for Tree<'a> {
    type V = TreeView;

    open spec fn view(&self) -> TreeView {
        TreeView {
            hostname: self.hostname@,
            namespace: self.namespace@,
            name: self.name@,
            rev: self.rev@,
            forge: self.forge,
        }
    }
}

/// The batch endpoint of a tree's LFS store:
/// `https://{hostname}/{namespace}/{name}.git/info/lfs/objects/batch`.
pub open spec fn batch_url_of(tree: TreeView) -> Seq<char> {
    "https://"@ + tree.hostname + "/"@ + tree.namespace + "/"@ + tree.name
        + ".git/info/lfs/objects/batch"@
}

/// The URL of a tree's archive, in the shape its forge serves it.
pub open spec fn archive_url_of(tree: TreeView) -> Seq<char> {
    match tree.forge {
        Forge::GitHub => "https://"@ + tree.hostname + "/"@ + tree.namespace + "/"@ + tree.name
            + "/archive/refs/heads/"@ + tree.rev + ".zip"@,
        Forge::GitLab => "https://"@ + tree.hostname + "/api/v4/projects/"@ + tree.namespace
            + "%2F"@ + tree.name + "/repository/archive.zip?include_lfs_blobs=false&sha="@
            + tree.rev,
    }
}

impl<'a> Tree<'a> {
    /// The URL to which batch requests for this tree's objects are posted.
    pub fn batch_url(&self) -> (url: String)
        ensures
            url@ == batch_url_of(self@),
    {
        let mut url = String::from_str("https://");
        url.append(self.hostname);
        url.append("/");
        url.append(self.namespace);
        url.append("/");
        url.append(self.name);
        url.append(".git/info/lfs/objects/batch");
        url
    }

    /// The URL from which this tree's archive is downloaded.
    pub fn archive_url(&self) -> (url: String)
        ensures
            url@ == archive_url_of(self@),
    {
        let mut url = String::from_str("https://");
        url.append(self.hostname);
        match self.forge {
            Forge::GitHub => {
                url.append("/");
                url.append(self.namespace);
                url.append("/");
                url.append(self.name);
                url.append("/archive/refs/heads/");
                url.append(self.rev);
                url.append(".zip");
            },
            Forge::GitLab => {
                url.append("/api/v4/projects/");
                url.append(self.namespace);
                url.append("%2F");
                url.append(self.name);
                url.append("/repository/archive.zip?include_lfs_blobs=false&sha=");
                url.append(self.rev);
            },
        }
        url
    }
}

impl<'a> Default for Tree<'a> {
    /// The index that the community maintains.
    fn default() -> (tree: Self)
        ensures
            tree.hostname@ == "gitlab.com"@,
            tree.namespace@ == "balatro-mod-index"@,
            tree.name@ == "repo"@,
            tree.rev@ == "main"@,
            tree.forge == Forge::GitLab,
    {
        Tree {
            hostname: "gitlab.com",
            namespace: "balatro-mod-index",
            name: "repo",
            rev: "main",
            forge: Forge::GitLab,
        }
    }
}

} // verus!
