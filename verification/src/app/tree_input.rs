//! Topic trees given as input to `add-tree`, patches and imports, and their checks.
use vstd::prelude::*;
use crate::text::{chars_of, decimal, decimal_spec, ends_with, ends_with_spec, is_blank, push_all, slice_chars, string_from_chars, trim_spec};

verus! {

/// A topic tree to be added: a title, optional metadata and children.
#[derive(Debug, PartialEq, Eq)]
pub struct TopicTreeInputDto {
    pub id: Option<String>,
    pub path: Option<String>,
    pub title: String,
    pub note: Option<String>,
    pub labels: Vec<String>,
    pub markers: Vec<String>,
    pub image: Option<TopicTreeImageInputDto>,
    pub children: Vec<TopicTreeInputDto>,
}

/// An image named in a topic tree input.
#[derive(Clone, Debug, PartialEq, Eq)]
pub struct TopicTreeImageInputDto {
    pub path: Option<String>,
    pub asset_id: Option<String>,
    pub alt: Option<String>,
    pub title: Option<String>,
}

/// A topic tree input that failed its checks: what is wrong and where.
#[derive(Debug, PartialEq, Eq)]
pub struct TreeInputValidationError {
    pub message: String,
    pub field_path: String,
}

impl TopicTreeInputDto {
    /// A tree of one topic with the given title and nothing else.
    pub fn new(title: String) -> (r: Self)
        ensures
            r.title@ == title@,
            r.id is None,
            r.path is None,
            r.note is None,
            r.labels@.len() == 0,
            r.markers@.len() == 0,
            r.image is None,
            r.children@.len() == 0,
    {
        TopicTreeInputDto {
            id: None,
            path: None,
            title,
            note: None,
            labels: Vec::new(),
            markers: Vec::new(),
            image: None,
            children: Vec::new(),
        }
    }
}

/// The field path of the title of the `index`-th child of the node whose title is at
/// `title_path`: the prefix before `.title` (nothing when `title_path` does not end in
/// `.title`), then `children[<index>].title`.
pub open spec fn child_title_path(title_path: Seq<char>, index: nat) -> Seq<char> {
    let prefix = if ends_with_spec(title_path, ".title"@) {
        title_path.take(title_path.len() - 6)
    } else {
        seq![]
    };
    if prefix.len() == 0 {
        "children["@ + decimal_spec(index) + "].title"@
    } else {
        prefix + ".children["@ + decimal_spec(index) + "].title"@
    }
}

/// The first problem in pre-order: a node whose title is blank, reported at its title's
/// field path.
pub open spec fn first_blank_title(tree: TopicTreeInputDto, title_path: Seq<char>) -> Option<
    Seq<char>,
>
    decreases tree, 1nat,
{
    if trim_spec(tree.title@).len() == 0 {
        Some(title_path)
    } else {
        first_blank_title_in(tree.children@, title_path, tree.children@.len() as int)
    }
}

/// The first blank title among the first `n` children.
pub open spec fn first_blank_title_in(
    children: Seq<TopicTreeInputDto>,
    title_path: Seq<char>,
    n: int,
) -> Option<Seq<char>>
    decreases children, 0nat, n,
{
    if n <= 0 || n > children.len() {
        None
    } else {
        match first_blank_title_in(children, title_path, n - 1) {
            Some(p) => Some(p),
            None => first_blank_title(children[n - 1], child_title_path(title_path, (n - 1) as nat)),
        }
    }
}

proof fn lemma_first_blank_in_stable(
    children: Seq<TopicTreeInputDto>,
    title_path: Seq<char>,
    n: int,
    m: int,
)
    requires
        0 < n <= m <= children.len(),
        first_blank_title_in(children, title_path, n) is Some,
    ensures
        first_blank_title_in(children, title_path, m) == first_blank_title_in(
            children,
            title_path,
            n,
        ),
    decreases m - n,
{
    if m > n {
        lemma_first_blank_in_stable(children, title_path, n, m - 1);
    }
}

fn child_title_path_exec(title_path: &[char], index: usize) -> (r: String)
    ensures
        r@ == child_title_path(title_path@, index as nat),
{
    let suffix = chars_of(".title");
    proof {
        reveal_strlit(".title");
    }
    let prefix: Vec<char> = if ends_with(title_path, suffix.as_slice()) {
        slice_chars(title_path, 0, title_path.len() - 6)
    } else {
        Vec::new()
    };
    let mut out: Vec<char> = Vec::new();
    if prefix.len() == 0 {
        let a = chars_of("children[");
        push_all(&mut out, a.as_slice());
    } else {
        push_all(&mut out, prefix.as_slice());
        let a = chars_of(".children[");
        push_all(&mut out, a.as_slice());
    }
    let d = decimal(index);
    push_all(&mut out, d.as_slice());
    let b = chars_of("].title");
    push_all(&mut out, b.as_slice());
    proof {
        assert(prefix@ == (if ends_with_spec(title_path@, ".title"@) {
            title_path@.take(title_path@.len() - 6)
        } else {
            seq![]
        }));
        assert(out@ =~= child_title_path(title_path@, index as nat));
    }
    string_from_chars(out.as_slice())
}

/// Checks that every node of the tree has a non-blank title; the first failing node in
/// pre-order is reported at its title's field path.
pub fn validate_topic_tree_node(tree: &TopicTreeInputDto, title_field_path: &str) -> (r: Result<
    (),
    TreeInputValidationError,
>)
    ensures
        match first_blank_title(*tree, title_field_path@) {
            None => r is Ok,
            Some(p) => r matches Err(e) && e.field_path@ == p && e.message@
                == "Topic tree title must not be empty."@,
        },
    decreases tree,
{
    let title = chars_of(tree.title.as_str());
    if is_blank(title.as_slice()) {
        return Err(TreeInputValidationError {
            message: "Topic tree title must not be empty.".to_owned(),
            field_path: title_field_path.to_owned(),
        });
    }
    let path = chars_of(title_field_path);
    let mut index: usize = 0;
    while index < tree.children.len()
        invariant
            index <= tree.children@.len(),
            path@ == title_field_path@,
            trim_spec(tree.title@).len() != 0,
            first_blank_title_in(tree.children@, path@, index as int) is None,
        decreases tree.children@.len() - index,
    {
        let child_path = child_title_path_exec(path.as_slice(), index);
        match validate_topic_tree_node(&tree.children[index], child_path.as_str()) {
            Ok(()) => {},
            Err(e) => {
                proof {
                    assert(first_blank_title_in(tree.children@, path@, index + 1) == first_blank_title(
                        tree.children@[index as int],
                        child_title_path(path@, index as nat),
                    ));
                    lemma_first_blank_in_stable(
                        tree.children@,
                        path@,
                        index + 1,
                        tree.children@.len() as int,
                    );
                }
                return Err(e);
            },
        }
        index = index + 1;
    }
    Ok(())
}

/// Checks a whole topic tree input; the root's title is at field path `title`.
pub fn validate_topic_tree_input(tree: &TopicTreeInputDto) -> (r: Result<(), TreeInputValidationError>)
    ensures
        match first_blank_title(*tree, "title"@) {
            None => r is Ok,
            Some(p) => r matches Err(e) && e.field_path@ == p && e.message@
                == "Topic tree title must not be empty."@,
        },
{
    validate_topic_tree_node(tree, "title")
}


/// Where an `add-tree` input comes from: a YAML or JSON file, or a Markdown file.
#[derive(Debug, PartialEq, Eq)]
pub enum TreeInputSource {
    Structured(String),
    Markdown(String),
}

/// The input file of `add-tree`: exactly one of `--input` and `--from-markdown`.
pub fn tree_input_source(input: Option<&str>, from_markdown: Option<&str>) -> (r: Result<TreeInputSource, String>)
    ensures
        match (input, from_markdown) {
            (Some(i), None) => r matches Ok(TreeInputSource::Structured(p)) && p@ == i@,
            (None, Some(m)) => r matches Ok(TreeInputSource::Markdown(p)) && p@ == m@,
            (None, None) => r matches Err(e) && e@ == "add-tree requires --input or --from-markdown."@,
            (Some(_), Some(_)) => r matches Err(e) && e@ == "add-tree accepts only one of --input or --from-markdown."@,
        },
{
    match (input, from_markdown) {
        (Some(i), None) => Ok(TreeInputSource::Structured(i.to_string())),
        (None, Some(m)) => Ok(TreeInputSource::Markdown(m.to_string())),
        (None, None) => Err("add-tree requires --input or --from-markdown.".to_string()),
        (Some(_), Some(_)) => Err("add-tree accepts only one of --input or --from-markdown.".to_string()),
    }
}

/// The format of a structured tree input file.
#[derive(Clone, Copy, Debug, PartialEq, Eq)]
pub enum TreeInputFormat {
    Yaml,
    Json,
}

/// The format a structured tree input's extension names: `yaml` or `yml`, or `json`.
pub fn tree_input_format(extension: &str) -> (r: Result<TreeInputFormat, String>)
    ensures
        extension@ == "yaml"@ || extension@ == "yml"@ ==> r == Ok::<TreeInputFormat, String>(TreeInputFormat::Yaml),
        extension@ == "json"@ ==> r == Ok::<TreeInputFormat, String>(TreeInputFormat::Json),
        extension@ != "yaml"@ && extension@ != "yml"@ && extension@ != "json"@ ==> (r matches Err(e) && e@
            == "Tree input must use .yaml, .yml, or .json."@),
{
    proof {
        reveal_strlit("yaml");
        reveal_strlit("yml");
        reveal_strlit("json");
        assert("json"@[0] != "yaml"@[0]);
        assert("json"@.len() != "yml"@.len());
    }
    if crate::text::str_equal(extension, "yaml") || crate::text::str_equal(extension, "yml") {
        Ok(TreeInputFormat::Yaml)
    } else if crate::text::str_equal(extension, "json") {
        Ok(TreeInputFormat::Json)
    } else {
        Err("Tree input must use .yaml, .yml, or .json.".to_string())
    }
}

} // verus!
