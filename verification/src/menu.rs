use vstd::prelude::*;

verus! {

/// Serving-size details the provider attaches to a food record.
#[derive(Clone, Debug)]
pub struct FlikIsDiningServingSizeInfo {
    pub serving_size_amount: String,
    pub serving_size_unit: String,
}

/// The resolved food data of a menu item; only its name is indexed.
#[derive(Clone, Debug)]
pub struct FoodInfo {
    pub name: String,
    pub serving_size_info: Option<FlikIsDiningServingSizeInfo>,
}

/// One entry of a day's menu. Items whose `food` is absent have no canonical
/// name and are never indexed.
#[derive(Clone, Debug)]
pub struct MenuItem {
    pub text: String,
    pub food: Option<FoodInfo>,
}

/// One day of menu data: its `yyyy-mm-dd` date and its items in menu order.
#[derive(Clone, Debug)]
pub struct MenuDay {
    pub date: String,
    pub menu_items: Vec<MenuItem>,
}

/// One indexed record: a food name and the date it is served.
#[derive(Clone, Debug)]
pub struct SearchDocument {
    pub content: String,
    pub date: String,
}

pub open spec fn doc_view(d: SearchDocument) -> (Seq<char>, Seq<char>) {
    (d.content@, d.date@)
}

pub open spec fn doc_views(s: Seq<SearchDocument>) -> Seq<(Seq<char>, Seq<char>)> {
    s.map_values(|d: SearchDocument| doc_view(d))
}

/// The documents of one day's items: one `(food name, date)` pair per item
/// with resolved food data, in menu order.
pub open spec fn items_docs(items: Seq<MenuItem>, date: Seq<char>) -> Seq<(Seq<char>, Seq<char>)>
    decreases items.len(),
{
    if items.len() == 0 {
        Seq::empty()
    } else {
        let rest = items_docs(items.drop_last(), date);
        match items.last().food {
            Some(f) => rest.push((f.name@, date)),
            None => rest,
        }
    }
}

pub open spec fn day_docs(day: MenuDay) -> Seq<(Seq<char>, Seq<char>)> {
    items_docs(day.menu_items@, day.date@)
}

/// The documents of one fetched week, day by day in order.
pub open spec fn week_docs(days: Seq<MenuDay>) -> Seq<(Seq<char>, Seq<char>)>
    decreases days.len(),
{
    if days.len() == 0 {
        Seq::empty()
    } else {
        week_docs(days.drop_last()) + day_docs(days.last())
    }
}

/// The documents of all successfully fetched weeks, week by week in order:
/// exactly one document per (day, item-with-food) pair.
pub open spec fn weeks_docs(weeks: Seq<Vec<MenuDay>>) -> Seq<(Seq<char>, Seq<char>)>
    decreases weeks.len(),
{
    if weeks.len() == 0 {
        Seq::empty()
    } else {
        weeks_docs(weeks.drop_last()) + week_docs(weeks.last()@)
    }
}

/// Converts the fetched weeks into search documents: one document per
/// (day, item-with-food) pair, in week, day and menu order.
pub fn build_documents(weeks: &Vec<Vec<MenuDay>>) -> (r: Vec<SearchDocument>)
    ensures
        doc_views(r@) == weeks_docs(weeks@),
{
    let mut docs: Vec<SearchDocument> = Vec::new();
    let mut w: usize = 0;
    while w < weeks.len()
        invariant
            w <= weeks@.len(),
            doc_views(docs@) == weeks_docs(weeks@.take(w as int)),
        decreases weeks@.len() - w,
    {
        let week = &weeks[w];
        let mut dy: usize = 0;
        while dy < week.len()
            invariant
                w < weeks@.len(),
                week == &weeks@[w as int],
                dy <= week@.len(),
                doc_views(docs@) == weeks_docs(weeks@.take(w as int)) + week_docs(
                    week@.take(dy as int),
                ),
            decreases week@.len() - dy,
        {
            let day = &week[dy];
            let mut it: usize = 0;
            while it < day.menu_items.len()
                invariant
                    w < weeks@.len(),
                    week == &weeks@[w as int],
                    dy < week@.len(),
                    day == &week@[dy as int],
                    it <= day.menu_items@.len(),
                    doc_views(docs@) == weeks_docs(weeks@.take(w as int)) + week_docs(
                        week@.take(dy as int),
                    ) + items_docs(day.menu_items@.take(it as int), day.date@),
                decreases day.menu_items@.len() - it,
            {
                let item = &day.menu_items[it];
                proof {
                    assert(day.menu_items@.take(it + 1).drop_last() =~= day.menu_items@.take(
                        it as int,
                    ));
                    assert(day.menu_items@.take(it + 1).last() == day.menu_items@[it as int]);
                }
                match &item.food {
                    Some(f) => {
                        let nd = SearchDocument { content: f.name.clone(), date: day.date.clone() };
                        let ghost ndv = nd;
                        let ghost pre = docs@;
                        docs.push(nd);
                        proof {
                            assert(docs@ == pre.push(ndv));
                            assert(doc_views(pre.push(ndv)) =~= doc_views(pre).push(doc_view(ndv)));
                            assert(doc_view(ndv) == (f.name@, day.date@));
                            assert(day.menu_items@[it as int].food is Some);
                            assert(items_docs(day.menu_items@.take(it + 1), day.date@)
                                == items_docs(day.menu_items@.take(it as int), day.date@).push(
                                (f.name@, day.date@),
                            ));
                            assert(doc_views(docs@) =~= weeks_docs(weeks@.take(w as int))
                                + week_docs(week@.take(dy as int)) + items_docs(
                                day.menu_items@.take(it + 1),
                                day.date@,
                            ));
                        }
                    },
                    None => {
                        proof {
                            assert(items_docs(day.menu_items@.take(it + 1), day.date@)
                                == items_docs(day.menu_items@.take(it as int), day.date@));
                        }
                    },
                }
                it = it + 1;
            }
            proof {
                assert(day.menu_items@.take(day.menu_items@.len() as int) =~= day.menu_items@);
                assert(week@.take(dy + 1).drop_last() =~= week@.take(dy as int));
                assert(week@.take(dy + 1).last() == week@[dy as int]);
            }
            dy = dy + 1;
        }
        proof {
            assert(week@.take(week@.len() as int) =~= week@);
            assert(weeks@.take(w + 1).drop_last() =~= weeks@.take(w as int));
            assert(weeks@.take(w + 1).last() == weeks@[w as int]);
        }
        w = w + 1;
    }
    proof {
        assert(weeks@.take(weeks@.len() as int) =~= weeks@);
    }
    docs
}

/// The items of a day that carry resolved food data, in menu order.
pub open spec fn kept_items(items: Seq<MenuItem>) -> Seq<MenuItem>
    decreases items.len(),
{
    if items.len() == 0 {
        Seq::empty()
    } else {
        let rest = kept_items(items.drop_last());
        if items.last().food is Some {
            rest.push(items.last())
        } else {
            rest
        }
    }
}

/// Whether `a` is, in order, a subsequence of `b`.
pub open spec fn docs_subsequence(
    a: Seq<(Seq<char>, Seq<char>)>,
    b: Seq<(Seq<char>, Seq<char>)>,
) -> bool
    decreases a.len() + b.len(),
{
    if a.len() == 0 {
        true
    } else if b.len() == 0 {
        false
    } else if a.last() == b.last() {
        docs_subsequence(a.drop_last(), b.drop_last())
    } else {
        docs_subsequence(a, b.drop_last())
    }
}

/// A subsequence stays one after its own last element is dropped.
pub proof fn lemma_subsequence_drop_last(
    a: Seq<(Seq<char>, Seq<char>)>,
    b: Seq<(Seq<char>, Seq<char>)>,
)
    requires
        docs_subsequence(a, b),
        a.len() > 0,
    ensures
        docs_subsequence(a.drop_last(), b),
    decreases a.len() + b.len(), 0int,
{
    if a.last() == b.last() {
        lemma_subsequence_push_right(a.drop_last(), b.drop_last(), b.last());
        assert(b.drop_last().push(b.last()) =~= b);
    } else {
        lemma_subsequence_drop_last(a, b.drop_last());
        lemma_subsequence_push_right(a.drop_last(), b.drop_last(), b.last());
        assert(b.drop_last().push(b.last()) =~= b);
    }
}

/// A subsequence stays one when the right side grows.
pub proof fn lemma_subsequence_push_right(
    a: Seq<(Seq<char>, Seq<char>)>,
    b: Seq<(Seq<char>, Seq<char>)>,
    x: (Seq<char>, Seq<char>),
)
    requires
        docs_subsequence(a, b),
    ensures
        docs_subsequence(a, b.push(x)),
    decreases a.len() + b.len(), 1int,
{
    if a.len() > 0 {
        assert(b.push(x).last() == x);
        assert(b.push(x).drop_last() =~= b);
        if a.last() == x {
            lemma_subsequence_drop_last(a, b);
        }
    }
}

/// Law: dropping the items without resolved food data/// Law: dropping the items without resolved food data changes nothing about
/// what is indexed — the documents of the kept items are exactly the
/// documents of all the items. Filtering a week early, as the weekly fetch
/// does, therefore never loses a document.
pub proof fn lemma_kept_items_same_docs(items: Seq<MenuItem>, date: Seq<char>)
    ensures
        items_docs(kept_items(items), date) == items_docs(items, date),
    decreases items.len(),
{
    if items.len() > 0 {
        lemma_kept_items_same_docs(items.drop_last(), date);
        match items.last().food {
            Some(_) => {
                let kept = kept_items(items.drop_last());
                assert(kept.push(items.last()).drop_last() =~= kept);
                assert(kept.push(items.last()).last() == items.last());
            },
            None => {},
        }
    }
}

/// Drops from every fetched day the items without resolved food data, as the
/// weekly fetch does before handing a week on: they have no canonical name
/// to index.
pub fn retain_food_items(days: Vec<MenuDay>) -> (r: Vec<MenuDay>)
    ensures
        r@.len() == days@.len(),
        forall|i: int|
            0 <= i < days@.len() ==> (#[trigger] r@[i]).date@ == days@[i].date@ && r@[i].menu_items@
                == kept_items(days@[i].menu_items@),
{
    let ghost orig = days@;
    let mut rest = days;
    let mut out: Vec<MenuDay> = Vec::new();
    while rest.len() > 0
        invariant
            out@.len() + rest@.len() == orig.len(),
            rest@ == orig.skip(out@.len() as int),
            forall|i: int|
                0 <= i < out@.len() ==> (#[trigger] out@[i]).date@ == orig[i].date@
                    && out@[i].menu_items@ == kept_items(orig[i].menu_items@),
        decreases rest@.len(),
    {
        let ghost k = out@.len() as int;
        let day = rest.remove(0);
        proof {
            assert(orig.skip(k)[0] == orig[k]);
            assert(day == orig[k]);
            assert(rest@ =~= orig.skip(k + 1));
        }
        let MenuDay { date, menu_items } = day;
        let ghost day_items = menu_items@;
        let mut src_items = menu_items;
        let mut items: Vec<MenuItem> = Vec::new();
        while src_items.len() > 0
            invariant
                src_items@.len() <= day_items.len(),
                src_items@ == day_items.skip(day_items.len() - src_items@.len()),
                items@ == kept_items(day_items.take(day_items.len() - src_items@.len())),
            decreases src_items@.len(),
        {
            let ghost j = day_items.len() - src_items@.len();
            let item = src_items.remove(0);
            proof {
                assert(day_items.skip(j)[0] == day_items[j]);
                assert(item == day_items[j]);
                assert(src_items@ =~= day_items.skip(j + 1));
                assert(day_items.take(j + 1).drop_last() =~= day_items.take(j));
                assert(day_items.take(j + 1).last() == day_items[j]);
            }
            if item.food.is_some() {
                items.push(item);
            }
        }
        proof {
            assert(day_items.take(day_items.len() as int) =~= day_items);
        }
        out.push(MenuDay { date, menu_items: items });
    }
    proof {
        assert(out@.len() == orig.len());
    }
    out
}

} // verus!
