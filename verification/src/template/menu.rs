//! The navigation menu shown on every page.
use vstd::prelude::*;

verus! {

/// A menu entry: its title, its link, and the entries below it.
pub struct MenuItem {
    pub title: String,
    pub link: String,
    pub sub: Vec<MenuItem>,
}

impl MenuItem {
    /// An entry with no entries below it.
    pub fn new(title: &str, link: &str) -> (m: MenuItem)
        ensures
            m.title@ == title@,
            m.link@ == link@,
            m.sub@.len() == 0,
    {
        MenuItem { title: title.to_owned(), link: link.to_owned(), sub: Vec::new() }
    }

    /// Adds an entry below this one, after those already there.
    pub fn item(&mut self, title: &str, link: &str)
        ensures
            final(self).title == old(self).title,
            final(self).link == old(self).link,
            final(self).sub@.len() == old(self).sub@.len() + 1,
            final(self).sub@.take(old(self).sub@.len() as int) == old(self).sub@,
            final(self).sub@.last().title@ == title@,
            final(self).sub@.last().link@ == link@,
            final(self).sub@.last().sub@.len() == 0,
    {
        let child = MenuItem::new(title, link);
        self.sub.push(child);
    }
}

/// The menu for a user in a role: a single entry, "Home", linking to
/// `/Default.aspx` (the same for everyone).
pub fn get_page_menu(username: &str, role: &str) -> (items: Vec<MenuItem>)
    ensures
        items@.len() == 1,
        items@[0].title@ == "Home"@,
        items@[0].link@ == "/Default.aspx"@,
        items@[0].sub@.len() == 0,
{
    let mut items: Vec<MenuItem> = Vec::new();
    let mi = MenuItem::new("Home", "/Default.aspx");
    items.push(mi);
    items
}

} // verus!
