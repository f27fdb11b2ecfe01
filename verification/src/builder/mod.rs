//! What building a site computes before it touches any file.

use vstd::prelude::*;
use vstd::string::*;

verus! {

/// The pattern that matches every Markdown file below the content directory
/// of a site.
pub open spec fn content_pattern(site_directory: Seq<char>, content: Seq<char>) -> Seq<char> {
    site_directory + "/"@ + content + "/**/*.md"@
}

/// The pattern that matches every Markdown file below the content directory
/// of a site.
pub fn content_glob(site_directory: &str, content: &str) -> (pattern: String)
    ensures
        pattern@ == content_pattern(site_directory@, content@),
{
    let mut pattern = site_directory.to_owned();
    pattern.append("/");
    pattern.append(content);
    pattern.append("/**/*.md");
    pattern
}

} // verus!
