use crate::error::ReaderError;
use crate::feed::{channel_header, feed_text, item_block, items_text, Rss, SEPARATOR};
use crate::registry::{category_address, category_url, is_category, url_of, CATEGORY_COUNT};
use crate::text::{
    compile_pattern, regex_source, remove_matches, replace_text, sanitized, TAG_PATTERN,
};
use regex::Regex;
use std::collections::HashMap;
use vstd::prelude::*;

verus! {

broadcast use vstd::std_specs::hash::group_hash_axioms;

/// The category table and the compiled tag pattern, built once and then
/// only read.
pub struct RssReader {
    category_urls: HashMap<u32, String>,
    html_tag_regex: Regex,
}

impl RssReader {
    /// The table maps exactly the ids `1..=8`, each to its feed address, and
    /// the regex is the tag pattern.
    #[verifier::type_invariant]
    spec fn inv(self) -> bool {
        &&& forall|id: u32| #[trigger]
            self.category_urls@.contains_key(id) == is_category(id)
        &&& forall|id: u32| #[trigger]
            self.category_urls@.contains_key(id) ==> self.category_urls@[id]@ == url_of(id)
        &&& regex_source(self.html_tag_regex) == TAG_PATTERN@
    }

    /// Builds the category table and compiles the tag pattern; both are
    /// fixed, so this always succeeds, and `lookup` on the reader then
    /// answers by the table of `category_url`.
    pub fn new() -> (r: Result<RssReader, ReaderError>)
        ensures
            r is Ok,
    {
        let mut category_urls: HashMap<u32, String> = HashMap::new();
        let mut id: u32 = 1;
        while id <= CATEGORY_COUNT
            invariant
                1 <= id <= CATEGORY_COUNT + 1,
                forall|k: u32| #[trigger]
                    category_urls@.contains_key(k) == (1 <= k < id),
                forall|k: u32| #[trigger]
                    category_urls@.contains_key(k) ==> category_urls@[k]@ == url_of(k),
            decreases CATEGORY_COUNT + 1 - id,
        {
            category_urls.insert(id, category_address(id).to_owned());
            id = id + 1;
        }
        match compile_pattern(TAG_PATTERN) {
            Ok(html_tag_regex) => Ok(RssReader { category_urls, html_tag_regex }),
            Err(_) => Err(ReaderError::InvalidPattern),
        }
    }

    /// Removes every `<...>` span from `text`, then turns each `&nbsp;` into
    /// one space.
    pub fn remove_tags(&self, text: &str) -> (r: String)
        ensures
            r@ == sanitized(text@),
    {
        proof {
            use_type_invariant(self);
        }
        let stripped = remove_matches(&self.html_tag_regex, text);
        let nbsp: &str = "&nbsp;";
        let space: &str = " ";
        proof {
            reveal_strlit("&nbsp;");
            reveal_strlit(" ");
            assert(nbsp@ =~= crate::text::nbsp());
            assert(space@ =~= seq![' ']);
        }
        replace_text(stripped.as_str(), nbsp, space)
    }

    /// The feed address of category `id`; ids outside `1..=8`, the exit
    /// selection `0` among them, name no category.
    pub fn lookup(&self, id: u32) -> (r: Result<&str, ReaderError>)
        ensures
            match category_url(id) {
                Some(url) => r matches Ok(u) && u@ == url,
                None => r == Err::<&str, ReaderError>(ReaderError::CategoryNotFound { id }),
            },
    {
        proof {
            use_type_invariant(self);
        }
        match self.category_urls.get(&id) {
            Some(url) => Ok(url.as_str()),
            None => Err(ReaderError::CategoryNotFound { id }),
        }
    }

    /// The text shown for a feed: its title, link and description, then for
    /// each item in document order its title, link, sanitized description
    /// and date, each block closed by the separator line.
    pub fn display_feed(&self, rss: &Rss) -> (r: String)
        ensures
            r@ == feed_text(*rss),
    {
        let ch = &rss.channel;
        let mut out = String::new();
        out.append("\nTitle: ");
        out.append(ch.title.as_str());
        out.append("\nLink: ");
        out.append(ch.link.as_str());
        out.append("\nDescription: ");
        out.append(ch.description.as_str());
        out.append("\n\n");
        assert(out@ =~= channel_header(rss.channel));
        let mut i: usize = 0;
        while i < ch.items.len()
            invariant
                i <= ch.items@.len(),
                out@ == channel_header(rss.channel) + items_text(ch.items@.take(i as int)),
            decreases ch.items@.len() - i,
        {
            let item = &ch.items[i];
            let description = self.remove_tags(item.description.as_str());
            let ghost before = out@;
            out.append("Title: ");
            out.append(item.title.as_str());
            out.append("\nLink: ");
            out.append(item.link.as_str());
            out.append("\nDescription: ");
            out.append(description.as_str());
            out.append("\nPublished: ");
            out.append(item.pub_date.as_str());
            out.append("\n\n");
            out.append(SEPARATOR);
            proof {
                let taken = ch.items@.take(i as int + 1);
                assert(taken.drop_last() =~= ch.items@.take(i as int));
                assert(taken.last() == *item);
                assert(out@ =~= before + item_block(*item, sanitized(item.description@)));
            }
            i = i + 1;
        }
        assert(ch.items@.take(ch.items@.len() as int) =~= ch.items@);
        out
    }
}

} // verus!
