use crate::text::sanitized;
use vstd::prelude::*;

verus! {

/// A parsed RSS document.
#[derive(Debug, Clone)]
pub struct Rss {
    pub channel: Channel,
}

/// The channel of a feed: its own fields and its items in document order.
#[derive(Debug, Clone)]
pub struct Channel {
    pub title: String,
    pub description: String,
    pub link: String,
    pub items: Vec<Item>,
}

/// One article of a feed. The description may hold markup; the date is kept
/// as the feed wrote it.
#[derive(Debug, Clone)]
pub struct Item {
    pub title: String,
    pub link: String,
    pub description: String,
    pub pub_date: String,
}

/// The line printed after each item: eighty dashes.
pub const SEPARATOR: &'static str =
    "--------------------------------------------------------------------------------\n";

/// The lines printed for a channel before its items.
pub open spec fn channel_header(ch: Channel) -> Seq<char> {
    "\nTitle: "@ + ch.title@ + "\nLink: "@ + ch.link@ + "\nDescription: "@ + ch.description@
        + "\n\n"@
}

/// The block printed for one item, given the text shown for its description;
/// it ends with the separator line.
pub open spec fn item_block(item: Item, description: Seq<char>) -> Seq<char> {
    "Title: "@ + item.title@ + "\nLink: "@ + item.link@ + "\nDescription: "@ + description
        + "\nPublished: "@ + item.pub_date@ + "\n\n"@ + SEPARATOR@
}

/// The blocks of `items`, one per item in the same order, each showing the
/// sanitized description.
pub open spec fn items_text(items: Seq<Item>) -> Seq<char>
    decreases items.len(),
{
    if items.len() == 0 {
        seq![]
    } else {
        items_text(items.drop_last()) + item_block(
            items.last(),
            sanitized(items.last().description@),
        )
    }
}

/// Everything printed for a feed: the channel header, then one block per item.
pub open spec fn feed_text(rss: Rss) -> Seq<char> {
    channel_header(rss.channel) + items_text(rss.channel.items@)
}

} // verus!
