//! The site configuration, and the paths derived with it.
//!
//! The content lives below `local_content_dir + base_dir`. A web path is what
//! follows the base directory in a local path; a relative path of the tree is
//! turned into a web-relative path by taking the base directory off its front.

use crate::paths::{join, joined, with_extension, with_extension_of};
use crate::text::{
    append_text, char_len, ends_with, find, find_first, same_text, slice, starts_with,
};
use vstd::prelude::*;

verus! {

/// The configuration of a site.
#[derive(Clone, Debug, PartialEq, Eq)]
pub struct SiteConfig {
    /// Protocol and host of the published site.
    pub prod_host: String,
    /// The priority written into every sitemap record.
    pub xml_priority: String,
    /// The root directory of the content, relative, with a separator at its end.
    pub base_dir: String,
    /// The absolute path that `base_dir` is appended to.
    pub local_content_dir: String,
}

/// The mathematical value of a `SiteConfig`.
pub ghost struct SiteConfigView {
    pub prod_host: Seq<char>,
    pub xml_priority: Seq<char>,
    pub base_dir: Seq<char>,
    pub local_content_dir: Seq<char>,
}

impl View for SiteConfig {
    type V = SiteConfigView;

    open spec fn view(&self) -> SiteConfigView {
        SiteConfigView {
            prod_host: self.prod_host@,
            xml_priority: self.xml_priority@,
            base_dir: self.base_dir@,
            local_content_dir: self.local_content_dir@,
        }
    }
}

/// The local root of the content.
pub open spec fn local_root(config: SiteConfigView) -> Seq<char> {
    config.local_content_dir + config.base_dir
}

/// Whether the base directory ends with a separator.
pub open spec fn base_is_closed(base: Seq<char>) -> bool {
    base.len() > 0 && base.last() == '/'
}

/// The base directory as relative paths of the tree begin with it: without the
/// separator at its end and without one at its front.
pub open spec fn base_core(base: Seq<char>) -> Seq<char> {
    let cut = if base_is_closed(base) {
        base.drop_last()
    } else {
        base
    };
    if cut.len() > 0 && cut[0] == '/' {
        cut.skip(1)
    } else {
        cut
    }
}

/// A relative path without a separator at its end.
pub open spec fn open_ended(relative: Seq<char>) -> Seq<char> {
    if relative.len() > 0 && relative.last() == '/' {
        relative.drop_last()
    } else {
        relative
    }
}

/// What follows the base directory in a relative path, or nothing where the
/// relative path does not lie in the base directory. A separator at the end of
/// the relative path makes no difference.
pub open spec fn below_base(base: Seq<char>, relative: Seq<char>) -> Option<Seq<char>> {
    let core = base_core(base);
    let path = open_ended(relative);
    if core.len() == 0 {
        Some(path)
    } else if path == core {
        Some(Seq::empty())
    } else if (core + seq!['/']).is_prefix_of(path) {
        Some(path.skip(core.len() as int + 1))
    } else {
        None
    }
}

/// The web path of a local path: a separator and what follows the first
/// occurrence of the base directory in the local path without its extension.
pub open spec fn web_path_of(base: Seq<char>, local: Seq<char>) -> Option<Seq<char>> {
    let bare = with_extension_of(local, Seq::empty());
    match find_first(bare, base) {
        Some(i) => Some(seq!['/'] + bare.skip(i + base.len())),
        None => None,
    }
}

/// The text of the robots file for a host.
pub open spec fn robot_food(host: Seq<char>) -> Seq<char> {
    "User-agents: *\nAllow: *\n\nSitemap: "@ + host + "/sitemap.xml"@
}

impl SiteConfig {
    /// The local root of the content: the content directory with the base
    /// directory appended.
    pub fn local_path(self) -> (r: String)
        ensures
            r@ == local_root(self@),
    {
        append_text(self.local_content_dir.as_str(), self.base_dir.as_str())
    }

    /// The local root of the content.
    pub fn root(&self) -> (r: String)
        ensures
            r@ == local_root(self@),
    {
        append_text(self.local_content_dir.as_str(), self.base_dir.as_str())
    }

    /// Whether the base directory ends with a separator.
    pub fn has_closed_base(&self) -> (r: bool)
        ensures
            r == base_is_closed(self@.base_dir),
    {
        proof {
            reveal_strlit("/");
            assert("/"@ =~= seq!['/']);
            let base = self.base_dir@;
            if base.len() > 0 {
                assert(base.subrange(base.len() - 1, base.len() as int) =~= seq![base.last()]);
                assert(seq![base.last()][0] == base.last());
            }
        }
        ends_with(self.base_dir.as_str(), "/")
    }
}

/// The robots file of the site: every agent is let in and pointed to the
/// sitemap of the production host.
pub fn generate_robot_food(config: &SiteConfig) -> (r: String)
    ensures
        r@ == robot_food(config@.prod_host),
{
    let mut r = append_text("User-agents: *\nAllow: *\n\nSitemap: ", config.prod_host.as_str());
    r.append("/sitemap.xml");
    r
}

/// The local path of a web path: the local root with the web path appended.
pub fn webpath_to_localpath(config: &SiteConfig, this_webpath: &str) -> (r: String)
    ensures
        r@ == local_root(config@) + this_webpath@,
{
    let root = config.root();
    append_text(root.as_str(), this_webpath)
}

/// The web path of a local path, or nothing where the base directory does not
/// occur in the local path.
pub fn localpath_to_webpath(config: &SiteConfig, this_localpath: &str) -> (r: Option<String>)
    ensures
        crate::text::option_text(r) == web_path_of(config@.base_dir, this_localpath@),
{
    proof {
        reveal_strlit("");
        reveal_strlit("/");
        assert(""@ =~= Seq::<char>::empty());
        assert("/"@ =~= seq!['/']);
        crate::text::lemma_find_from_is_first(
            with_extension_of(this_localpath@, Seq::empty()),
            config.base_dir@,
            0,
        );
    }
    let bare = with_extension(this_localpath, "");
    match find(bare.as_str(), config.base_dir.as_str()) {
        Some(i) => {
            let n: usize = char_len(bare.as_str());
            let m: usize = char_len(config.base_dir.as_str());
            let rest = slice(bare.as_str(), i + m, n);
            proof {
                assert(bare@.subrange(i + m, n as int) =~= bare@.skip(i + m));
            }
            Some(append_text("/", rest.as_str()))
        },
        None => None,
    }
}

/// What follows the base directory in a relative path of the tree, or nothing
/// where the relative path does not lie in the base directory.
pub fn strip_base(base_dir: &str, relative_path: &str) -> (r: Option<String>)
    ensures
        crate::text::option_text(r) == below_base(base_dir@, relative_path@),
{
    proof {
        reveal_strlit("/");
        assert("/"@ =~= seq!['/']);
    }
    let base_len: usize = char_len(base_dir);
    let closed: bool = ends_with(base_dir, "/");
    let cut_end: usize = if closed {
        base_len - 1
    } else {
        base_len
    };
    let cut = slice(base_dir, 0, cut_end);
    proof {
        if base_len > 0 {
            assert(base_dir@.subrange(base_len - 1, base_len as int) =~= seq![base_dir@.last()]);
            assert(seq![base_dir@.last()][0] == base_dir@.last());
        }
        assert(base_dir@.subrange(0, cut_end as int) =~= if base_is_closed(base_dir@) {
            base_dir@.drop_last()
        } else {
            base_dir@
        });
    }
    let core = if starts_with(cut.as_str(), "/") {
        let r = slice(cut.as_str(), 1, cut_end);
        proof {
            assert(cut@.subrange(0, 1) =~= seq![cut@[0]]);
            assert(seq![cut@[0]][0] == cut@[0]);
            assert(cut@.subrange(1, cut_end as int) =~= cut@.skip(1));
        }
        r
    } else {
        proof {
            if cut@.len() > 0 {
                assert(cut@.subrange(0, 1) =~= seq![cut@[0]]);
                assert(seq![cut@[0]][0] == cut@[0]);
            }
        }
        cut
    };
    assert(core@ == base_core(base_dir@));
    let rel_len: usize = char_len(relative_path);
    let path = if ends_with(relative_path, "/") {
        let r = slice(relative_path, 0, rel_len - 1);
        proof {
            assert(relative_path@.subrange(rel_len - 1, rel_len as int) =~= seq![
                relative_path@.last(),
            ]);
            assert(seq![relative_path@.last()][0] == relative_path@.last());
            assert(relative_path@.subrange(0, rel_len - 1) =~= relative_path@.drop_last());
        }
        r
    } else {
        proof {
            if rel_len > 0 {
                assert(relative_path@.subrange(rel_len - 1, rel_len as int) =~= seq![
                    relative_path@.last(),
                ]);
                assert(seq![relative_path@.last()][0] == relative_path@.last());
            }
            assert(relative_path@.subrange(0, rel_len as int) =~= relative_path@);
        }
        slice(relative_path, 0, rel_len)
    };
    assert(path@ == open_ended(relative_path@));
    let core_len: usize = char_len(core.as_str());
    if core_len == 0 {
        return Some(path);
    }
    if same_text(path.as_str(), core.as_str()) {
        let r = String::from_str("");
        proof {
            reveal_strlit("");
            assert(r@ =~= Seq::<char>::empty());
        }
        return Some(r);
    }
    let prefix = append_text(core.as_str(), "/");
    if starts_with(path.as_str(), prefix.as_str()) {
        let path_len: usize = char_len(path.as_str());
        let r = slice(path.as_str(), core_len + 1, path_len);
        proof {
            assert(path@.subrange(core_len + 1, path_len as int) =~= path@.skip(core_len + 1));
        }
        Some(r)
    } else {
        None
    }
}

/// The configuration that a new site starts with.
pub open spec fn starter_config_view() -> SiteConfigView {
    SiteConfigView {
        prod_host: "https://localhost:8000"@,
        xml_priority: "0.64"@,
        base_dir: "/"@,
        local_content_dir: "/"@,
    }
}

/// The configuration that a new site starts with.
pub fn starter_config() -> (r: SiteConfig)
    ensures
        r@ == starter_config_view(),
{
    SiteConfig {
        prod_host: String::from_str("https://localhost:8000"),
        xml_priority: String::from_str("0.64"),
        base_dir: String::from_str("/"),
        local_content_dir: String::from_str("/"),
    }
}

/// The path of the configuration file below the user's configuration directory.
pub fn config_file_path(config_dir: &str) -> (r: String)
    ensures
        r@ == joined(joined(config_dir@, "n4"@), "default.json"@),
{
    let own = join(config_dir, "n4");
    join(own.as_str(), "default.json")
}

/// A separator at the end of a relative path makes no difference to what
/// follows the base directory in it.
pub proof fn lemma_final_separator_ignored(base: Seq<char>, relative: Seq<char>)
    requires
        relative.len() == 0 || relative.last() != '/',
    ensures
        below_base(base, relative + seq!['/']) == below_base(base, relative),
{
    assert((relative + seq!['/']).drop_last() =~= relative);
}

/// Of a base directory that ends with a separator: the directory itself has
/// nothing following the base, and a path below it has what stands behind the
/// base and a separator.
pub proof fn lemma_below_base(base: Seq<char>, rest: Seq<char>)
    requires
        base_is_closed(base),
        base_core(base).len() > 0,
        base_core(base).last() != '/',
        rest.len() > 0,
        rest.last() != '/',
    ensures
        below_base(base, base_core(base)) == Some(Seq::<char>::empty()),
        below_base(base, base_core(base) + seq!['/'] + rest) == Some(rest),
{
    let core = base_core(base);
    let path = core + seq!['/'] + rest;
    assert(path.last() == rest.last());
    assert(path.subrange(0, (core + seq!['/']).len() as int) =~= core + seq!['/']);
    assert(path.skip(core.len() as int + 1) =~= rest);
    if path == core {
        assert(path.len() == core.len());
    }
}

} // verus!
