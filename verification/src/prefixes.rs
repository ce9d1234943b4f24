//! The prefixes by which URLs are told apart exclude each other.
use crate::text::{lemma_other_prefix, stripped};
use vstd::prelude::*;
use vstd::string::*;

verus! {

/// A dock action begins with none of the prefixes that are tried before its own.
pub proof fn lemma_dock_action_prefix(url: Seq<char>)
    requires
        stripped(url, "zed-dock-action://"@) is Some,
    ensures
        stripped(url, "zed-cli://"@) is None,
{
    reveal_strlit("zed-cli://");
    reveal_strlit("zed-dock-action://");
    lemma_other_prefix(url, "zed-dock-action://"@, "zed-cli://"@, 4);
}

/// A file URL begins with none of the prefixes that are tried before its own.
pub proof fn lemma_file_prefix(url: Seq<char>)
    requires
        stripped(url, "file://"@) is Some,
    ensures
        stripped(url, "zed-cli://"@) is None,
        stripped(url, "zed-dock-action://"@) is None,
{
    reveal_strlit("zed-cli://");
    reveal_strlit("zed-dock-action://");
    reveal_strlit("file://");
    lemma_other_prefix(url, "file://"@, "zed-cli://"@, 0);
    lemma_other_prefix(url, "file://"@, "zed-dock-action://"@, 0);
}

/// A file link begins with none of the prefixes that are tried before its own.
pub proof fn lemma_zed_file_prefix(url: Seq<char>)
    requires
        stripped(url, "zed://file"@) is Some,
    ensures
        stripped(url, "zed-cli://"@) is None,
        stripped(url, "zed-dock-action://"@) is None,
        stripped(url, "file://"@) is None,
{
    reveal_strlit("zed-cli://");
    reveal_strlit("zed-dock-action://");
    reveal_strlit("file://");
    reveal_strlit("zed://file");
    lemma_other_prefix(url, "zed://file"@, "zed-cli://"@, 3);
    lemma_other_prefix(url, "zed://file"@, "zed-dock-action://"@, 3);
    lemma_other_prefix(url, "zed://file"@, "file://"@, 0);
}

/// A link to an SSH host begins with none of the prefixes that are tried before its own.
pub proof fn lemma_zed_ssh_prefix(url: Seq<char>)
    requires
        stripped(url, "zed://ssh"@) is Some,
    ensures
        stripped(url, "zed-cli://"@) is None,
        stripped(url, "zed-dock-action://"@) is None,
        stripped(url, "file://"@) is None,
        stripped(url, "zed://file"@) is None,
{
    reveal_strlit("zed-cli://");
    reveal_strlit("zed-dock-action://");
    reveal_strlit("file://");
    reveal_strlit("zed://file");
    reveal_strlit("zed://ssh");
    lemma_other_prefix(url, "zed://ssh"@, "zed-cli://"@, 3);
    lemma_other_prefix(url, "zed://ssh"@, "zed-dock-action://"@, 3);
    lemma_other_prefix(url, "zed://ssh"@, "file://"@, 0);
    lemma_other_prefix(url, "zed://ssh"@, "zed://file"@, 6);
}

/// An extension link begins with none of the prefixes that are tried before its own.
pub proof fn lemma_extension_prefix(url: Seq<char>)
    requires
        stripped(url, "zed://extension/"@) is Some,
    ensures
        stripped(url, "zed-cli://"@) is None,
        stripped(url, "zed-dock-action://"@) is None,
        stripped(url, "file://"@) is None,
        stripped(url, "zed://file"@) is None,
        stripped(url, "zed://ssh"@) is None,
{
    reveal_strlit("zed-cli://");
    reveal_strlit("zed-dock-action://");
    reveal_strlit("file://");
    reveal_strlit("zed://file");
    reveal_strlit("zed://ssh");
    reveal_strlit("zed://extension/");
    lemma_other_prefix(url, "zed://extension/"@, "zed-cli://"@, 3);
    lemma_other_prefix(url, "zed://extension/"@, "zed-dock-action://"@, 3);
    lemma_other_prefix(url, "zed://extension/"@, "file://"@, 0);
    lemma_other_prefix(url, "zed://extension/"@, "zed://file"@, 6);
    lemma_other_prefix(url, "zed://extension/"@, "zed://ssh"@, 6);
}

/// An agent link begins with none of the prefixes that are tried before its own.
pub proof fn lemma_agent_prefix(url: Seq<char>)
    requires
        stripped(url, "zed://agent"@) is Some,
    ensures
        stripped(url, "zed-cli://"@) is None,
        stripped(url, "zed-dock-action://"@) is None,
        stripped(url, "file://"@) is None,
        stripped(url, "zed://file"@) is None,
        stripped(url, "zed://ssh"@) is None,
        stripped(url, "zed://extension/"@) is None,
{
    reveal_strlit("zed-cli://");
    reveal_strlit("zed-dock-action://");
    reveal_strlit("file://");
    reveal_strlit("zed://file");
    reveal_strlit("zed://ssh");
    reveal_strlit("zed://extension/");
    reveal_strlit("zed://agent");
    lemma_other_prefix(url, "zed://agent"@, "zed-cli://"@, 3);
    lemma_other_prefix(url, "zed://agent"@, "zed-dock-action://"@, 3);
    lemma_other_prefix(url, "zed://agent"@, "file://"@, 0);
    lemma_other_prefix(url, "zed://agent"@, "zed://file"@, 6);
    lemma_other_prefix(url, "zed://agent"@, "zed://ssh"@, 6);
    lemma_other_prefix(url, "zed://agent"@, "zed://extension/"@, 6);
}

/// A schema link begins with none of the prefixes that are tried before its own.
pub proof fn lemma_schema_prefix(url: Seq<char>)
    requires
        stripped(url, "zed://schemas/"@) is Some,
    ensures
        stripped(url, "zed-cli://"@) is None,
        stripped(url, "zed-dock-action://"@) is None,
        stripped(url, "file://"@) is None,
        stripped(url, "zed://file"@) is None,
        stripped(url, "zed://ssh"@) is None,
        stripped(url, "zed://extension/"@) is None,
        stripped(url, "zed://agent"@) is None,
        stripped(url, "zed://agent/shared/"@) is None,
{
    reveal_strlit("zed-cli://");
    reveal_strlit("zed-dock-action://");
    reveal_strlit("file://");
    reveal_strlit("zed://file");
    reveal_strlit("zed://ssh");
    reveal_strlit("zed://extension/");
    reveal_strlit("zed://agent");
    reveal_strlit("zed://agent/shared/");
    reveal_strlit("zed://schemas/");
    lemma_other_prefix(url, "zed://schemas/"@, "zed-cli://"@, 3);
    lemma_other_prefix(url, "zed://schemas/"@, "zed-dock-action://"@, 3);
    lemma_other_prefix(url, "zed://schemas/"@, "file://"@, 0);
    lemma_other_prefix(url, "zed://schemas/"@, "zed://file"@, 6);
    lemma_other_prefix(url, "zed://schemas/"@, "zed://ssh"@, 7);
    lemma_other_prefix(url, "zed://schemas/"@, "zed://extension/"@, 6);
    lemma_other_prefix(url, "zed://schemas/"@, "zed://agent"@, 6);
    lemma_other_prefix(url, "zed://schemas/"@, "zed://agent/shared/"@, 6);
}

/// A settings link begins with none of the prefixes that are tried before its own.
pub proof fn lemma_setting_prefix(url: Seq<char>)
    requires
        stripped(url, "zed://settings/"@) is Some,
    ensures
        stripped(url, "zed-cli://"@) is None,
        stripped(url, "zed-dock-action://"@) is None,
        stripped(url, "file://"@) is None,
        stripped(url, "zed://file"@) is None,
        stripped(url, "zed://ssh"@) is None,
        stripped(url, "zed://extension/"@) is None,
        stripped(url, "zed://agent"@) is None,
        stripped(url, "zed://agent/shared/"@) is None,
        stripped(url, "zed://schemas/"@) is None,
{
    reveal_strlit("zed-cli://");
    reveal_strlit("zed-dock-action://");
    reveal_strlit("file://");
    reveal_strlit("zed://file");
    reveal_strlit("zed://ssh");
    reveal_strlit("zed://extension/");
    reveal_strlit("zed://agent");
    reveal_strlit("zed://agent/shared/");
    reveal_strlit("zed://schemas/");
    reveal_strlit("zed://settings/");
    lemma_other_prefix(url, "zed://settings/"@, "zed-cli://"@, 3);
    lemma_other_prefix(url, "zed://settings/"@, "zed-dock-action://"@, 3);
    lemma_other_prefix(url, "zed://settings/"@, "file://"@, 0);
    lemma_other_prefix(url, "zed://settings/"@, "zed://file"@, 6);
    lemma_other_prefix(url, "zed://settings/"@, "zed://ssh"@, 7);
    lemma_other_prefix(url, "zed://settings/"@, "zed://extension/"@, 6);
    lemma_other_prefix(url, "zed://settings/"@, "zed://agent"@, 6);
    lemma_other_prefix(url, "zed://settings/"@, "zed://agent/shared/"@, 6);
    lemma_other_prefix(url, "zed://settings/"@, "zed://schemas/"@, 7);
}

/// A link to clone from begins with none of the prefixes that are tried before its own.
pub proof fn lemma_clone_prefix(url: Seq<char>)
    requires
        stripped(url, "zed://git/clone"@) is Some,
    ensures
        stripped(url, "zed-cli://"@) is None,
        stripped(url, "zed-dock-action://"@) is None,
        stripped(url, "file://"@) is None,
        stripped(url, "zed://file"@) is None,
        stripped(url, "zed://ssh"@) is None,
        stripped(url, "zed://extension/"@) is None,
        stripped(url, "zed://agent"@) is None,
        stripped(url, "zed://agent/shared/"@) is None,
        stripped(url, "zed://schemas/"@) is None,
        stripped(url, "zed://settings/"@) is None,
        url != "zed://settings"@ && url != "zed://settings/"@,
{
    reveal_strlit("zed-cli://");
    reveal_strlit("zed-dock-action://");
    reveal_strlit("file://");
    reveal_strlit("zed://file");
    reveal_strlit("zed://ssh");
    reveal_strlit("zed://extension/");
    reveal_strlit("zed://agent");
    reveal_strlit("zed://agent/shared/");
    reveal_strlit("zed://schemas/");
    reveal_strlit("zed://settings/");
    reveal_strlit("zed://git/clone");
    reveal_strlit("zed://settings");
    lemma_other_prefix(url, "zed://git/clone"@, "zed-cli://"@, 3);
    lemma_other_prefix(url, "zed://git/clone"@, "zed-dock-action://"@, 3);
    lemma_other_prefix(url, "zed://git/clone"@, "file://"@, 0);
    lemma_other_prefix(url, "zed://git/clone"@, "zed://file"@, 6);
    lemma_other_prefix(url, "zed://git/clone"@, "zed://ssh"@, 6);
    lemma_other_prefix(url, "zed://git/clone"@, "zed://extension/"@, 6);
    lemma_other_prefix(url, "zed://git/clone"@, "zed://agent"@, 6);
    lemma_other_prefix(url, "zed://git/clone"@, "zed://agent/shared/"@, 6);
    lemma_other_prefix(url, "zed://git/clone"@, "zed://schemas/"@, 6);
    lemma_other_prefix(url, "zed://git/clone"@, "zed://settings/"@, 6);
    assert(url[6] == "zed://git/clone"@[6]);
}

/// A link to a commit begins with none of the prefixes that are tried before its own.
pub proof fn lemma_commit_prefix(url: Seq<char>)
    requires
        stripped(url, "zed://git/commit/"@) is Some,
    ensures
        stripped(url, "zed-cli://"@) is None,
        stripped(url, "zed-dock-action://"@) is None,
        stripped(url, "file://"@) is None,
        stripped(url, "zed://file"@) is None,
        stripped(url, "zed://ssh"@) is None,
        stripped(url, "zed://extension/"@) is None,
        stripped(url, "zed://agent"@) is None,
        stripped(url, "zed://agent/shared/"@) is None,
        stripped(url, "zed://schemas/"@) is None,
        stripped(url, "zed://settings/"@) is None,
        stripped(url, "zed://git/clone"@) is None,
        url != "zed://settings"@ && url != "zed://settings/"@,
{
    reveal_strlit("zed-cli://");
    reveal_strlit("zed-dock-action://");
    reveal_strlit("file://");
    reveal_strlit("zed://file");
    reveal_strlit("zed://ssh");
    reveal_strlit("zed://extension/");
    reveal_strlit("zed://agent");
    reveal_strlit("zed://agent/shared/");
    reveal_strlit("zed://schemas/");
    reveal_strlit("zed://settings/");
    reveal_strlit("zed://git/clone");
    reveal_strlit("zed://git/commit/");
    reveal_strlit("zed://settings");
    lemma_other_prefix(url, "zed://git/commit/"@, "zed-cli://"@, 3);
    lemma_other_prefix(url, "zed://git/commit/"@, "zed-dock-action://"@, 3);
    lemma_other_prefix(url, "zed://git/commit/"@, "file://"@, 0);
    lemma_other_prefix(url, "zed://git/commit/"@, "zed://file"@, 6);
    lemma_other_prefix(url, "zed://git/commit/"@, "zed://ssh"@, 6);
    lemma_other_prefix(url, "zed://git/commit/"@, "zed://extension/"@, 6);
    lemma_other_prefix(url, "zed://git/commit/"@, "zed://agent"@, 6);
    lemma_other_prefix(url, "zed://git/commit/"@, "zed://agent/shared/"@, 6);
    lemma_other_prefix(url, "zed://git/commit/"@, "zed://schemas/"@, 6);
    lemma_other_prefix(url, "zed://git/commit/"@, "zed://settings/"@, 6);
    lemma_other_prefix(url, "zed://git/commit/"@, "zed://git/clone"@, 11);
    assert(url[6] == "zed://git/commit/"@[6]);
}

/// An SSH URL begins with none of the prefixes that are tried before its own.
pub proof fn lemma_ssh_prefix(url: Seq<char>)
    requires
        stripped(url, "ssh://"@) is Some,
    ensures
        stripped(url, "zed-cli://"@) is None,
        stripped(url, "zed-dock-action://"@) is None,
        stripped(url, "file://"@) is None,
        stripped(url, "zed://file"@) is None,
        stripped(url, "zed://ssh"@) is None,
        stripped(url, "zed://extension/"@) is None,
        stripped(url, "zed://agent"@) is None,
        stripped(url, "zed://agent/shared/"@) is None,
        stripped(url, "zed://schemas/"@) is None,
        stripped(url, "zed://settings/"@) is None,
        stripped(url, "zed://git/clone"@) is None,
        stripped(url, "zed://git/commit/"@) is None,
        url != "zed://settings"@ && url != "zed://settings/"@,
{
    reveal_strlit("zed-cli://");
    reveal_strlit("zed-dock-action://");
    reveal_strlit("file://");
    reveal_strlit("zed://file");
    reveal_strlit("zed://ssh");
    reveal_strlit("zed://extension/");
    reveal_strlit("zed://agent");
    reveal_strlit("zed://agent/shared/");
    reveal_strlit("zed://schemas/");
    reveal_strlit("zed://settings/");
    reveal_strlit("zed://git/clone");
    reveal_strlit("zed://git/commit/");
    reveal_strlit("ssh://");
    reveal_strlit("zed://settings");
    lemma_other_prefix(url, "ssh://"@, "zed-cli://"@, 0);
    lemma_other_prefix(url, "ssh://"@, "zed-dock-action://"@, 0);
    lemma_other_prefix(url, "ssh://"@, "file://"@, 0);
    lemma_other_prefix(url, "ssh://"@, "zed://file"@, 0);
    lemma_other_prefix(url, "ssh://"@, "zed://ssh"@, 0);
    lemma_other_prefix(url, "ssh://"@, "zed://extension/"@, 0);
    lemma_other_prefix(url, "ssh://"@, "zed://agent"@, 0);
    lemma_other_prefix(url, "ssh://"@, "zed://agent/shared/"@, 0);
    lemma_other_prefix(url, "ssh://"@, "zed://schemas/"@, 0);
    lemma_other_prefix(url, "ssh://"@, "zed://settings/"@, 0);
    lemma_other_prefix(url, "ssh://"@, "zed://git/clone"@, 0);
    lemma_other_prefix(url, "ssh://"@, "zed://git/commit/"@, 0);
    assert(url[0] == "ssh://"@[0]);
}

} // verus!
