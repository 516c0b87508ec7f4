//! The classic filter sidebar's state and its text helpers.
use vstd::prelude::*;

use crate::models::{CatverCategory, FilterSettings};
use crate::text::{decimal, push_decimal, push_str};

verus! {

/// State of the classic sidebar.
pub struct Sidebar {
    search_text: String,
    category_search_text: String,
    previous_category: Option<String>,
}

impl Sidebar {
    /// The sidebar's search text.
    pub closed spec fn search_view(&self) -> Seq<char> {
        self.search_text@
    }

    /// The text of the category search field.
    pub closed spec fn category_search_view(&self) -> Seq<char> {
        self.category_search_text@
    }

    /// The category that was selected when the sidebar was last shown.
    pub closed spec fn previous_view(&self) -> Option<Seq<char>> {
        match self.previous_category {
            Some(c) => Some(c@),
            None => None,
        }
    }

    /// A sidebar with empty search fields and no remembered category.
    pub fn new() -> (r: Self)
        ensures
            r.search_view().len() == 0,
            r.category_search_view().len() == 0,
            r.previous_view() is None,
    {
        Sidebar {
            search_text: String::new(),
            category_search_text: String::new(),
            previous_category: None,
        }
    }

    /// The category that was selected when the sidebar was last shown.
    pub fn get_previous_category(&self) -> (r: Option<String>)
        ensures
            match r {
                Some(c) => self.previous_view() == Some(c@),
                None => self.previous_view() is None,
            },
    {
        self.previous_category.clone()
    }

    /// Remembers the current category before the user changes the filters.
    pub fn remember_category(&mut self, filter_settings: &FilterSettings)
        ensures
            final(self).previous_view() == match filter_settings.catver_category {
                Some(c) => Some(c@),
                None => None,
            },
            final(self).search_view() == old(self).search_view(),
            final(self).category_search_view() == old(self).category_search_view(),
    {
        self.previous_category = filter_settings.catver_category.clone();
    }

    /// The current text of the category search field.
    pub fn category_search_text(&self) -> (r: &str)
        ensures
            r@ == self.category_search_view(),
    {
        self.category_search_text.as_str()
    }

    /// The current search text.
    pub fn search_text(&self) -> (r: &str)
        ensures
            r@ == self.search_view(),
    {
        self.search_text.as_str()
    }

    /// Category label with its game count: no count for an empty category,
    /// `(1 game)` for one, `(n games)` otherwise.
    pub fn format_category_display(category: &CatverCategory) -> (r: String)
        ensures
            r@ == category_display_spec(category.display_name@, category.game_count as nat),
    {
        let mut s = String::new();
        push_str(&mut s, category.display_name.as_str());
        if category.game_count == 1 {
            push_str(&mut s, " (1 game)");
        } else if category.game_count != 0 {
            push_str(&mut s, " (");
            push_decimal(&mut s, category.game_count as u64);
            push_str(&mut s, " games)");
        }
        proof {
            reveal_strlit(" (1 game)");
            reveal_strlit(" (");
            reveal_strlit(" games)");
        }
        assert(s@ =~= category_display_spec(category.display_name@, category.game_count as nat));
        s
    }

    /// Categories offered for one-click selection.
    pub fn get_popular_categories() -> (r: Vec<&'static str>)
        ensures
            r@.len() == 10,
            r@.map_values(|s: &str| s@) == popular_categories_spec(),
    {
        let mut r: Vec<&'static str> = Vec::new();
        r.push("Arcade");
        r.push("Ball & Paddle");
        r.push("Casino");
        r.push("Driving");
        r.push("Fighter");
        r.push("Maze");
        r.push("Platform");
        r.push("Puzzle");
        r.push("Shooter");
        r.push("Sports");
        assert(r@.map_values(|s: &str| s@) =~= popular_categories_spec());
        r
    }
}

/// Category label with its game count.
pub open spec fn category_display_spec(display_name: Seq<char>, count: nat) -> Seq<char> {
    if count == 0 {
        display_name
    } else if count == 1 {
        display_name + " (1 game)"@
    } else {
        display_name + " ("@ + decimal(count) + " games)"@
    }
}

/// The popular categories, in display order.
pub open spec fn popular_categories_spec() -> Seq<Seq<char>> {
    seq![
        "Arcade"@,
        "Ball & Paddle"@,
        "Casino"@,
        "Driving"@,
        "Fighter"@,
        "Maze"@,
        "Platform"@,
        "Puzzle"@,
        "Shooter"@,
        "Sports"@,
    ]
}

} // verus!
