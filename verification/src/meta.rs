//! The metadata of pages and of sections.
//!
//! A page has a `ContentMeta`, kept beside its body files; a directory has a
//! `MenuItemMeta`, kept beside the directory. Either has a default that stands
//! in where the file is missing or cannot be parsed.

use crate::text::texts;
use vstd::prelude::*;

verus! {

/// A copy of a list of texts.
pub fn clone_texts(list: &Vec<String>) -> (r: Vec<String>)
    ensures
        texts(r@) == texts(list@),
{
    let mut r: Vec<String> = Vec::new();
    let mut i: usize = 0;
    while i < list.len()
        invariant
            i <= list.len(),
            texts(r@) == texts(list@).take(i as int),
        decreases list.len() - i,
    {
        let ghost earlier = r@;
        r.push(list[i].clone());
        proof {
            assert(texts(earlier).len() == earlier.len());
            assert forall|j: int| 0 <= j < i implies texts(r@)[j] == texts(list@)[j] by {
                assert(texts(earlier)[j] == texts(list@).take(i as int)[j]);
            }
            assert(texts(r@) =~= texts(list@).take(i + 1));
        }
        i = i + 1;
    }
    proof {
        assert(texts(list@).take(i as int) =~= texts(list@));
    }
    r
}

/// What is known of one page.
#[derive(Debug, PartialEq, Eq)]
pub struct ContentMeta {
    /// The title of the page.
    pub title: String,
    /// The web path of the page.
    pub path: String,
    /// The path of the page's icon.
    pub content_icon: String,
    /// A description of the page.
    pub description: String,
    /// The weight by which pages are ordered; lower comes first.
    pub weight: u32,
    /// The author of the page.
    pub author: String,
    /// The license of the content.
    pub license: String,
    /// The web paths of the pages that this page embeds.
    pub content_list: Vec<String>,
    /// The kind of content.
    pub content_type: String,
    /// The class of the page's body.
    pub content_class: String,
    /// A template that takes the place of the section's.
    pub template_override: String,
    /// Scripts that the page includes.
    pub javascript_include: Vec<String>,
    /// Script text placed in the page.
    pub javascript_inline: String,
    /// Style sheets that the page includes.
    pub css_include: Vec<String>,
    /// Style text placed in the page.
    pub css_inline: String,
    /// The body whose time of creation stands for the page's.
    pub created_time_default: String,
    /// The body whose time of modification stands for the page's.
    pub modified_time_default: String,
}

/// The mathematical value of a `ContentMeta`.
pub ghost struct ContentMetaView {
    pub title: Seq<char>,
    pub path: Seq<char>,
    pub content_icon: Seq<char>,
    pub description: Seq<char>,
    pub weight: u32,
    pub author: Seq<char>,
    pub license: Seq<char>,
    pub content_list: Seq<Seq<char>>,
    pub content_type: Seq<char>,
    pub content_class: Seq<char>,
    pub template_override: Seq<char>,
    pub javascript_include: Seq<Seq<char>>,
    pub javascript_inline: Seq<char>,
    pub css_include: Seq<Seq<char>>,
    pub css_inline: Seq<char>,
    pub created_time_default: Seq<char>,
    pub modified_time_default: Seq<char>,
}

impl View for ContentMeta {
    type V = ContentMetaView;

    open spec fn view(&self) -> ContentMetaView {
        ContentMetaView {
            title: self.title@,
            path: self.path@,
            content_icon: self.content_icon@,
            description: self.description@,
            weight: self.weight,
            author: self.author@,
            license: self.license@,
            content_list: texts(self.content_list@),
            content_type: self.content_type@,
            content_class: self.content_class@,
            template_override: self.template_override@,
            javascript_include: texts(self.javascript_include@),
            javascript_inline: self.javascript_inline@,
            css_include: texts(self.css_include@),
            css_inline: self.css_inline@,
            created_time_default: self.created_time_default@,
            modified_time_default: self.modified_time_default@,
        }
    }
}

/// The value that stands in for a page without metadata of its own.
pub open spec fn default_content_meta() -> ContentMetaView {
    ContentMetaView {
        title: "Default ContentMeta struct title"@,
        path: "/"@,
        content_icon: "/static/images/content_default_icon.svg"@,
        description: "Default description value"@,
        weight: 100,
        author: "Default"@,
        license: "cc-by-sa"@,
        content_list: Seq::empty(),
        content_type: "page"@,
        content_class: "basic-page"@,
        template_override: ""@,
        javascript_include: Seq::empty(),
        javascript_inline: ""@,
        css_include: Seq::empty(),
        css_inline: ""@,
        created_time_default: "markdown"@,
        modified_time_default: "markdown"@,
    }
}

impl Default for ContentMeta {
    fn default() -> (r: Self)
        ensures
            r@ == default_content_meta(),
    {
        let r = ContentMeta {
            title: String::from_str("Default ContentMeta struct title"),
            path: String::from_str("/"),
            content_icon: String::from_str("/static/images/content_default_icon.svg"),
            description: String::from_str("Default description value"),
            weight: 100,
            author: String::from_str("Default"),
            license: String::from_str("cc-by-sa"),
            content_list: Vec::new(),
            content_type: String::from_str("page"),
            content_class: String::from_str("basic-page"),
            template_override: String::from_str(""),
            javascript_include: Vec::new(),
            javascript_inline: String::from_str(""),
            css_include: Vec::new(),
            css_inline: String::from_str(""),
            created_time_default: String::from_str("markdown"),
            modified_time_default: String::from_str("markdown"),
        };
        proof {
            assert(texts(r.content_list@) =~= Seq::<Seq<char>>::empty());
            assert(texts(r.javascript_include@) =~= Seq::<Seq<char>>::empty());
            assert(texts(r.css_include@) =~= Seq::<Seq<char>>::empty());
        }
        r
    }
}

impl Clone for ContentMeta {
    fn clone(&self) -> (r: Self)
        ensures
            r@ == self@,
    {
        ContentMeta {
            title: self.title.clone(),
            path: self.path.clone(),
            content_icon: self.content_icon.clone(),
            description: self.description.clone(),
            weight: self.weight,
            author: self.author.clone(),
            license: self.license.clone(),
            content_list: clone_texts(&self.content_list),
            content_type: self.content_type.clone(),
            content_class: self.content_class.clone(),
            template_override: self.template_override.clone(),
            javascript_include: clone_texts(&self.javascript_include),
            javascript_inline: self.javascript_inline.clone(),
            css_include: clone_texts(&self.css_include),
            css_inline: self.css_inline.clone(),
            created_time_default: self.created_time_default.clone(),
            modified_time_default: self.modified_time_default.clone(),
        }
    }
}

/// What is known of one section: a directory of the content.
#[derive(Debug, PartialEq, Eq)]
pub struct MenuItemMeta {
    /// The path of the section's icon.
    pub menu_icon: String,
    /// A description of the section.
    pub description: String,
    /// The weight by which sections are ordered; lower comes first.
    pub weight: u32,
    /// The template of all content in the directory.
    pub section_template: String,
    /// A template for the index page of the directory alone.
    pub template_override: String,
    /// The kind of content.
    pub content_type: String,
    /// The body class that the content of the directory inherits.
    pub section_class: String,
    /// The body class of the index page of the directory alone.
    pub content_class: String,
    /// Scripts that the content of the directory inherits.
    pub section_javascript_include: Vec<String>,
    /// Scripts of the index page alone.
    pub javascript_include: Vec<String>,
    /// Script text placed in the index page.
    pub javascript_inline: String,
    /// Style sheets that the content of the directory inherits.
    pub section_css_include: Vec<String>,
    /// Style sheets of the index page alone.
    pub css_include: Vec<String>,
    /// Style text placed in the index page.
    pub css_inline: String,
}

/// The mathematical value of a `MenuItemMeta`.
pub ghost struct MenuItemMetaView {
    pub menu_icon: Seq<char>,
    pub description: Seq<char>,
    pub weight: u32,
    pub section_template: Seq<char>,
    pub template_override: Seq<char>,
    pub content_type: Seq<char>,
    pub section_class: Seq<char>,
    pub content_class: Seq<char>,
    pub section_javascript_include: Seq<Seq<char>>,
    pub javascript_include: Seq<Seq<char>>,
    pub javascript_inline: Seq<char>,
    pub section_css_include: Seq<Seq<char>>,
    pub css_include: Seq<Seq<char>>,
    pub css_inline: Seq<char>,
}

impl View for MenuItemMeta {
    type V = MenuItemMetaView;

    open spec fn view(&self) -> MenuItemMetaView {
        MenuItemMetaView {
            menu_icon: self.menu_icon@,
            description: self.description@,
            weight: self.weight,
            section_template: self.section_template@,
            template_override: self.template_override@,
            content_type: self.content_type@,
            section_class: self.section_class@,
            content_class: self.content_class@,
            section_javascript_include: texts(self.section_javascript_include@),
            javascript_include: texts(self.javascript_include@),
            javascript_inline: self.javascript_inline@,
            section_css_include: texts(self.section_css_include@),
            css_include: texts(self.css_include@),
            css_inline: self.css_inline@,
        }
    }
}

/// The value that stands in for a section without metadata of its own.
pub open spec fn default_menu_meta() -> MenuItemMetaView {
    MenuItemMetaView {
        menu_icon: "/static/images/menu_default_icon.svg"@,
        description: "Menu default description."@,
        weight: 100,
        section_template: "article"@,
        template_override: ""@,
        content_type: "directory"@,
        section_class: "section"@,
        content_class: "directory-page"@,
        section_javascript_include: Seq::empty(),
        javascript_include: Seq::empty(),
        javascript_inline: ""@,
        section_css_include: Seq::empty(),
        css_include: Seq::empty(),
        css_inline: ""@,
    }
}

impl Default for MenuItemMeta {
    fn default() -> (r: Self)
        ensures
            r@ == default_menu_meta(),
    {
        let r = MenuItemMeta {
            menu_icon: String::from_str("/static/images/menu_default_icon.svg"),
            description: String::from_str("Menu default description."),
            weight: 100,
            section_template: String::from_str("article"),
            template_override: String::from_str(""),
            content_type: String::from_str("directory"),
            section_class: String::from_str("section"),
            content_class: String::from_str("directory-page"),
            section_javascript_include: Vec::new(),
            javascript_include: Vec::new(),
            javascript_inline: String::from_str(""),
            section_css_include: Vec::new(),
            css_include: Vec::new(),
            css_inline: String::from_str(""),
        };
        proof {
            assert(texts(r.section_javascript_include@) =~= Seq::<Seq<char>>::empty());
            assert(texts(r.javascript_include@) =~= Seq::<Seq<char>>::empty());
            assert(texts(r.section_css_include@) =~= Seq::<Seq<char>>::empty());
            assert(texts(r.css_include@) =~= Seq::<Seq<char>>::empty());
        }
        r
    }
}

impl Clone for MenuItemMeta {
    fn clone(&self) -> (r: Self)
        ensures
            r@ == self@,
    {
        MenuItemMeta {
            menu_icon: self.menu_icon.clone(),
            description: self.description.clone(),
            weight: self.weight,
            section_template: self.section_template.clone(),
            template_override: self.template_override.clone(),
            content_type: self.content_type.clone(),
            section_class: self.section_class.clone(),
            content_class: self.content_class.clone(),
            section_javascript_include: clone_texts(&self.section_javascript_include),
            javascript_include: clone_texts(&self.javascript_include),
            javascript_inline: self.javascript_inline.clone(),
            section_css_include: clone_texts(&self.section_css_include),
            css_include: clone_texts(&self.css_include),
            css_inline: self.css_inline.clone(),
        }
    }
}

} // verus!
