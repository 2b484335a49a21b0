use vstd::prelude::*;

verus! {

/// A stock and its latest traded price, in hundredths of the currency unit.
#[derive(Clone, Debug, PartialEq)]
pub struct Stock {
    pub name: String,
    pub price: u64,
}

/// The price that each stock starts at: 100.00.
pub const INITIAL_PRICE: u64 = 10000;

/// The map from name to price that a sequence of entries stands for; a later
/// entry for a name overrides an earlier one.
pub open spec fn stock_map(s: Seq<Stock>) -> Map<Seq<char>, u64>
    decreases s.len(),
{
    if s.len() == 0 {
        Map::empty()
    } else {
        stock_map(s.drop_last()).insert(s.last().name@, s.last().price)
    }
}

/// No two entries share a name.
pub open spec fn names_distinct(s: Seq<Stock>) -> bool {
    forall|i: int, j: int| 0 <= i < j < s.len() ==> s[i].name@ != s[j].name@
}

/// The stocks that the exchange lists, each at the initial price.
pub open spec fn initial_stock_map() -> Map<Seq<char>, u64> {
    Map::empty()
        .insert("APPL"@, INITIAL_PRICE).insert("MSFT"@, INITIAL_PRICE).insert("GOOG"@, INITIAL_PRICE)
        .insert("AMZN"@, INITIAL_PRICE).insert("TSLA"@, INITIAL_PRICE).insert("NVDA"@, INITIAL_PRICE)
        .insert("META"@, INITIAL_PRICE).insert("ORCL"@, INITIAL_PRICE).insert("IBM"@, INITIAL_PRICE)
        .insert("AMD"@, INITIAL_PRICE).insert("ADM"@, INITIAL_PRICE).insert("BG"@, INITIAL_PRICE)
        .insert("FMC"@, INITIAL_PRICE).insert("CTVA"@, INITIAL_PRICE).insert("DE"@, INITIAL_PRICE)
        .insert("MOS"@, INITIAL_PRICE).insert("AGCO"@, INITIAL_PRICE).insert("CF"@, INITIAL_PRICE)
        .insert("CALM"@, INITIAL_PRICE).insert("SMG"@, INITIAL_PRICE).insert("XOM"@, INITIAL_PRICE)
        .insert("CVX"@, INITIAL_PRICE).insert("BP"@, INITIAL_PRICE).insert("COP"@, INITIAL_PRICE)
        .insert("TOT"@, INITIAL_PRICE).insert("HAL"@, INITIAL_PRICE).insert("SLB"@, INITIAL_PRICE)
        .insert("PSX"@, INITIAL_PRICE).insert("VLO"@, INITIAL_PRICE).insert("OXY"@, INITIAL_PRICE)
        .insert("JNJ"@, INITIAL_PRICE).insert("PFE"@, INITIAL_PRICE).insert("MRK"@, INITIAL_PRICE)
        .insert("UNH"@, INITIAL_PRICE).insert("ABBV"@, INITIAL_PRICE).insert("AMGN"@, INITIAL_PRICE)
        .insert("TMO"@, INITIAL_PRICE).insert("BMY"@, INITIAL_PRICE).insert("GILD"@, INITIAL_PRICE)
        .insert("BIIB"@, INITIAL_PRICE).insert("JPM"@, INITIAL_PRICE).insert("BAC"@, INITIAL_PRICE)
        .insert("WFC"@, INITIAL_PRICE).insert("GS"@, INITIAL_PRICE).insert("MS"@, INITIAL_PRICE)
        .insert("C"@, INITIAL_PRICE).insert("USB"@, INITIAL_PRICE).insert("BK"@, INITIAL_PRICE)
        .insert("TFC"@, INITIAL_PRICE).insert("AXP"@, INITIAL_PRICE).insert("PG"@, INITIAL_PRICE)
        .insert("KO"@, INITIAL_PRICE).insert("PEP"@, INITIAL_PRICE).insert("UL"@, INITIAL_PRICE)
        .insert("NKE"@, INITIAL_PRICE).insert("COST"@, INITIAL_PRICE).insert("MCD"@, INITIAL_PRICE)
        .insert("WMT"@, INITIAL_PRICE).insert("SBUX"@, INITIAL_PRICE).insert("HD"@, INITIAL_PRICE)
}

/// A name is a key of the map of `s` exactly when some entry carries it.
pub proof fn lemma_stock_map_dom(s: Seq<Stock>, k: Seq<char>)
    ensures
        stock_map(s).dom().contains(k) <==> exists|i: int| 0 <= i < s.len() && s[i].name@ == k,
    decreases s.len(),
{
    if s.len() > 0 {
        lemma_stock_map_dom(s.drop_last(), k);
        if stock_map(s.drop_last()).dom().contains(k) {
            let i = choose|i: int| 0 <= i < s.drop_last().len() && s.drop_last()[i].name@ == k;
            assert(s[i].name@ == k);
        }
        if exists|i: int| 0 <= i < s.len() && s[i].name@ == k {
            let i = choose|i: int| 0 <= i < s.len() && s[i].name@ == k;
            if i < s.len() - 1 {
                assert(s.drop_last()[i].name@ == k);
            }
        }
    }
}

/// With distinct names, the map gives each entry's own price.
pub proof fn lemma_stock_map_value(s: Seq<Stock>, i: int)
    requires
        names_distinct(s),
        0 <= i < s.len(),
    ensures
        stock_map(s).dom().contains(s[i].name@),
        stock_map(s)[s[i].name@] == s[i].price,
    decreases s.len(),
{
    if i < s.len() - 1 {
        assert(s.drop_last()[i] == s[i]);
        lemma_stock_map_value(s.drop_last(), i);
    }
}

/// Sets the price of `name` in `v`, adding the entry when the name is new.
fn upsert(v: &mut Vec<Stock>, name: String, price: u64)
    requires
        names_distinct(old(v)@),
    ensures
        names_distinct(final(v)@),
        stock_map(final(v)@) == stock_map(old(v)@).insert(name@, price),
{
    let mut i: usize = 0;
    while i < v.len()
        invariant
            i <= v.len(),
            forall|j: int| 0 <= j < i ==> v@[j].name@ != name@,
        ensures
            i <= v.len(),
            forall|j: int| 0 <= j < i ==> v@[j].name@ != name@,
            i < v.len() ==> v@[i as int].name@ == name@,
        decreases v.len() - i,
    {
        if v[i].name == name {
            break;
        }
        i = i + 1;
    }
    if i < v.len() {
        assert(v@[i as int].name@ == name@);
        let ghost s = v@;
        v.set(i, Stock { name, price });
        proof {
            assert forall|k: Seq<char>|
                #[trigger] stock_map(v@).dom().contains(k) == stock_map(s).insert(name@, price).dom().contains(k)
            by {
                lemma_stock_map_dom(v@, k);
                lemma_stock_map_dom(s, k);
                if k == name@ {
                    assert(v@[i as int].name@ == k);
                } else {
                    if exists|j: int| 0 <= j < s.len() && s[j].name@ == k {
                        let j = choose|j: int| 0 <= j < s.len() && s[j].name@ == k;
                        assert(v@[j].name@ == k);
                    }
                    if exists|j: int| 0 <= j < v@.len() && v@[j].name@ == k {
                        let j = choose|j: int| 0 <= j < v@.len() && v@[j].name@ == k;
                        assert(s[j].name@ == k);
                    }
                }
            }
            assert forall|k: Seq<char>| #[trigger] stock_map(v@).dom().contains(k) implies
                stock_map(v@)[k] == stock_map(s).insert(name@, price)[k]
            by {
                lemma_stock_map_dom(v@, k);
                let j = choose|j: int| 0 <= j < v@.len() && v@[j].name@ == k;
                lemma_stock_map_value(v@, j);
                if j != i {
                    lemma_stock_map_value(s, j);
                }
            }
            assert(stock_map(v@) =~= stock_map(s).insert(name@, price));
        }
    } else {
        v.push(Stock { name, price });
        proof {
            assert(v@.drop_last() =~= old(v)@);
        }
    }
}

/// The exchange's listed stocks and their latest prices, each name once.
///
/// The entries are a vector with distinct names rather than a `HashMap`
/// keyed by `String`: vstd specifies `HashMap` only for key types that obey
/// its key model, and `String` is not among them, so a `String`-keyed map
/// would carry no usable contract.
pub struct MapStock {
    stocks: Vec<Stock>,
}

impl View for MapStock {
    type V = Map<Seq<char>, u64>;

    /// The price of each listed stock, by name.
    closed spec fn view(&self) -> Map<Seq<char>, u64> {
        stock_map(self.stocks@)
    }
}

impl MapStock {
    #[verifier::type_invariant]
    spec fn distinct_names(self) -> bool {
        names_distinct(self.stocks@)
    }

    /// The entries, in the order the map keeps them.
    pub closed spec fn entries(&self) -> Seq<Stock> {
        self.stocks@
    }

    /// The listed stocks, each at the initial price of 100.00.
    pub fn new() -> (res: MapStock)
        ensures
            res@ == initial_stock_map(),
    {
        let mut v: Vec<Stock> = Vec::new();
        upsert(&mut v, "APPL".to_owned(), INITIAL_PRICE);
        upsert(&mut v, "MSFT".to_owned(), INITIAL_PRICE);
        upsert(&mut v, "GOOG".to_owned(), INITIAL_PRICE);
        upsert(&mut v, "AMZN".to_owned(), INITIAL_PRICE);
        upsert(&mut v, "TSLA".to_owned(), INITIAL_PRICE);
        upsert(&mut v, "NVDA".to_owned(), INITIAL_PRICE);
        upsert(&mut v, "META".to_owned(), INITIAL_PRICE);
        upsert(&mut v, "ORCL".to_owned(), INITIAL_PRICE);
        upsert(&mut v, "IBM".to_owned(), INITIAL_PRICE);
        upsert(&mut v, "AMD".to_owned(), INITIAL_PRICE);
        upsert(&mut v, "ADM".to_owned(), INITIAL_PRICE);
        upsert(&mut v, "BG".to_owned(), INITIAL_PRICE);
        upsert(&mut v, "FMC".to_owned(), INITIAL_PRICE);
        upsert(&mut v, "CTVA".to_owned(), INITIAL_PRICE);
        upsert(&mut v, "DE".to_owned(), INITIAL_PRICE);
        upsert(&mut v, "MOS".to_owned(), INITIAL_PRICE);
        upsert(&mut v, "AGCO".to_owned(), INITIAL_PRICE);
        upsert(&mut v, "CF".to_owned(), INITIAL_PRICE);
        upsert(&mut v, "CALM".to_owned(), INITIAL_PRICE);
        upsert(&mut v, "SMG".to_owned(), INITIAL_PRICE);
        upsert(&mut v, "XOM".to_owned(), INITIAL_PRICE);
        upsert(&mut v, "CVX".to_owned(), INITIAL_PRICE);
        upsert(&mut v, "BP".to_owned(), INITIAL_PRICE);
        upsert(&mut v, "COP".to_owned(), INITIAL_PRICE);
        upsert(&mut v, "TOT".to_owned(), INITIAL_PRICE);
        upsert(&mut v, "HAL".to_owned(), INITIAL_PRICE);
        upsert(&mut v, "SLB".to_owned(), INITIAL_PRICE);
        upsert(&mut v, "PSX".to_owned(), INITIAL_PRICE);
        upsert(&mut v, "VLO".to_owned(), INITIAL_PRICE);
        upsert(&mut v, "OXY".to_owned(), INITIAL_PRICE);
        upsert(&mut v, "JNJ".to_owned(), INITIAL_PRICE);
        upsert(&mut v, "PFE".to_owned(), INITIAL_PRICE);
        upsert(&mut v, "MRK".to_owned(), INITIAL_PRICE);
        upsert(&mut v, "UNH".to_owned(), INITIAL_PRICE);
        upsert(&mut v, "ABBV".to_owned(), INITIAL_PRICE);
        upsert(&mut v, "AMGN".to_owned(), INITIAL_PRICE);
        upsert(&mut v, "TMO".to_owned(), INITIAL_PRICE);
        upsert(&mut v, "BMY".to_owned(), INITIAL_PRICE);
        upsert(&mut v, "GILD".to_owned(), INITIAL_PRICE);
        upsert(&mut v, "BIIB".to_owned(), INITIAL_PRICE);
        upsert(&mut v, "JPM".to_owned(), INITIAL_PRICE);
        upsert(&mut v, "BAC".to_owned(), INITIAL_PRICE);
        upsert(&mut v, "WFC".to_owned(), INITIAL_PRICE);
        upsert(&mut v, "GS".to_owned(), INITIAL_PRICE);
        upsert(&mut v, "MS".to_owned(), INITIAL_PRICE);
        upsert(&mut v, "C".to_owned(), INITIAL_PRICE);
        upsert(&mut v, "USB".to_owned(), INITIAL_PRICE);
        upsert(&mut v, "BK".to_owned(), INITIAL_PRICE);
        upsert(&mut v, "TFC".to_owned(), INITIAL_PRICE);
        upsert(&mut v, "AXP".to_owned(), INITIAL_PRICE);
        upsert(&mut v, "PG".to_owned(), INITIAL_PRICE);
        upsert(&mut v, "KO".to_owned(), INITIAL_PRICE);
        upsert(&mut v, "PEP".to_owned(), INITIAL_PRICE);
        upsert(&mut v, "UL".to_owned(), INITIAL_PRICE);
        upsert(&mut v, "NKE".to_owned(), INITIAL_PRICE);
        upsert(&mut v, "COST".to_owned(), INITIAL_PRICE);
        upsert(&mut v, "MCD".to_owned(), INITIAL_PRICE);
        upsert(&mut v, "WMT".to_owned(), INITIAL_PRICE);
        upsert(&mut v, "SBUX".to_owned(), INITIAL_PRICE);
        upsert(&mut v, "HD".to_owned(), INITIAL_PRICE);
        MapStock { stocks: v }
    }

    /// Every listed name, once each.
    pub fn get_stock_names(&self) -> (names: Vec<String>)
        ensures
            names@.len() == self.entries().len(),
            forall|i: int| 0 <= i < names@.len() ==> #[trigger] names@[i]@ == self.entries()[i].name@,
            forall|i: int, j: int| 0 <= i < j < names@.len() ==> names@[i]@ != names@[j]@,
            forall|k: Seq<char>| self@.dom().contains(k) <==>
                exists|i: int| 0 <= i < names@.len() && #[trigger] names@[i]@ == k,
    {
        proof { use_type_invariant(self); }
        let mut names: Vec<String> = Vec::new();
        let mut i: usize = 0;
        while i < self.stocks.len()
            invariant
                i <= self.stocks@.len(),
                names@.len() == i,
                forall|j: int| 0 <= j < i ==> #[trigger] names@[j]@ == self.stocks@[j].name@,
            decreases self.stocks@.len() - i,
        {
            names.push(self.stocks[i].name.clone());
            i = i + 1;
        }
        proof {
            assert forall|k: Seq<char>| self@.dom().contains(k) <==>
                exists|i: int| 0 <= i < names@.len() && #[trigger] names@[i]@ == k
            by {
                lemma_stock_map_dom(self.stocks@, k);
                if exists|i: int| 0 <= i < self.stocks@.len() && self.stocks@[i].name@ == k {
                    let i = choose|i: int| 0 <= i < self.stocks@.len() && self.stocks@[i].name@ == k;
                    assert(names@[i]@ == k);
                }
            }
        }
        names
    }

    /// The price of the stock called `name`, or `None` when it is not listed.
    pub fn read(&self, name: &str) -> (res: Option<u64>)
        ensures
            res == (if self@.dom().contains(name@) { Some(self@[name@]) } else { None::<u64> }),
    {
        proof { use_type_invariant(self); }
        let key = name.to_owned();
        let mut i: usize = 0;
        while i < self.stocks.len()
            invariant
                i <= self.stocks@.len(),
                key@ == name@,
                names_distinct(self.stocks@),
                forall|j: int| 0 <= j < i ==> self.stocks@[j].name@ != name@,
            decreases self.stocks@.len() - i,
        {
            if self.stocks[i].name == key {
                proof { lemma_stock_map_value(self.stocks@, i as int); }
                return Some(self.stocks[i].price);
            }
            i = i + 1;
        }
        proof { lemma_stock_map_dom(self.stocks@, name@); }
        None
    }
}

} // verus!
