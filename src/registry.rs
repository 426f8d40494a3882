use vstd::prelude::*;

verus! {

pub const PRIMA_PAGINA_URL: &'static str = "https://www.adnkronos.com/RSS_PrimaPagina.xml";
pub const ULTIMORA_URL: &'static str = "https://www.adnkronos.com/RSS_Ultimora.xml";
pub const POLITICA_URL: &'static str = "https://www.adnkronos.com/RSS_Politica.xml";
pub const ESTERI_URL: &'static str = "https://www.adnkronos.com/RSS_Esteri.xml";
pub const CRONACA_URL: &'static str = "https://www.adnkronos.com/RSS_Cronaca.xml";
pub const ECONOMIA_URL: &'static str = "https://www.adnkronos.com/RSS_Economia.xml";
pub const FINANZA_URL: &'static str = "https://www.adnkronos.com/RSS_Finanza.xml";
pub const SPORT_URL: &'static str = "https://www.adnkronos.com/RSS_Sport.xml";

/// The number of categories in the table; they are numbered from 1.
pub const CATEGORY_COUNT: u32 = 8;

/// The selection that ends the session; it names no category.
pub const EXIT_SELECTION: u32 = 0;

/// Whether `id` names a category of the table.
pub open spec fn is_category(id: u32) -> bool {
    1 <= id <= CATEGORY_COUNT
}

/// The feed address of category `id`, for `id` in `1..=8`.
pub open spec fn url_of(id: u32) -> Seq<char> {
    if id == 1 {
        PRIMA_PAGINA_URL@
    } else if id == 2 {
        ULTIMORA_URL@
    } else if id == 3 {
        POLITICA_URL@
    } else if id == 4 {
        ESTERI_URL@
    } else if id == 5 {
        CRONACA_URL@
    } else if id == 6 {
        ECONOMIA_URL@
    } else if id == 7 {
        FINANZA_URL@
    } else {
        SPORT_URL@
    }
}

/// The feed address of a category, or `None` where `id` names none.
pub open spec fn category_url(id: u32) -> Option<Seq<char>> {
    if is_category(id) {
        Some(url_of(id))
    } else {
        None
    }
}

/// The menu label of category `id`, for `id` in `1..=8`.
pub open spec fn label_of(id: u32) -> &'static str {
    if id == 1 {
        "Prima Pagina"
    } else if id == 2 {
        "Ultim'ora"
    } else if id == 3 {
        "Politica"
    } else if id == 4 {
        "Esteri"
    } else if id == 5 {
        "Cronaca"
    } else if id == 6 {
        "Economia"
    } else if id == 7 {
        "Finanza"
    } else {
        "Sport"
    }
}

/// The menu label of category `id`, for `id` in `1..=8`.
pub fn category_label(id: u32) -> (r: &'static str)
    requires
        is_category(id),
    ensures
        r == label_of(id),
{
    if id == 1 {
        "Prima Pagina"
    } else if id == 2 {
        "Ultim'ora"
    } else if id == 3 {
        "Politica"
    } else if id == 4 {
        "Esteri"
    } else if id == 5 {
        "Cronaca"
    } else if id == 6 {
        "Economia"
    } else if id == 7 {
        "Finanza"
    } else {
        "Sport"
    }
}

/// The feed address of category `id`, for `id` in `1..=8`.
pub fn category_address(id: u32) -> (r: &'static str)
    requires
        is_category(id),
    ensures
        r@ == url_of(id),
{
    if id == 1 {
        PRIMA_PAGINA_URL
    } else if id == 2 {
        ULTIMORA_URL
    } else if id == 3 {
        POLITICA_URL
    } else if id == 4 {
        ESTERI_URL
    } else if id == 5 {
        CRONACA_URL
    } else if id == 6 {
        ECONOMIA_URL
    } else if id == 7 {
        FINANZA_URL
    } else {
        SPORT_URL
    }
}

/// The categories in menu order: each id of `1..=8` with its label, by
/// increasing id.
pub fn labels() -> (r: Vec<(u32, &'static str)>)
    ensures
        r@.len() == CATEGORY_COUNT,
        forall|i: int| 0 <= i < r@.len() ==> #[trigger] r@[i] == ((i + 1) as u32, label_of((i + 1) as u32)),
{
    let mut r: Vec<(u32, &'static str)> = Vec::new();
    let mut id: u32 = 1;
    while id <= CATEGORY_COUNT
        invariant
            1 <= id <= CATEGORY_COUNT + 1,
            r@.len() == id - 1,
            forall|i: int| 0 <= i < r@.len() ==> #[trigger] r@[i] == ((i + 1) as u32, label_of((i + 1) as u32)),
        decreases CATEGORY_COUNT + 1 - id,
    {
        r.push((id, category_label(id)));
        id = id + 1;
    }
    r
}

} // verus!
