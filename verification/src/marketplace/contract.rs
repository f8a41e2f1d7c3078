//! The marketplace itself: the state it keeps and the calls that change it.
//! Every call either succeeds and leaves the marketplace as its contract says,
//! or fails with the reason and leaves the marketplace as it was.

use crate::account::AccountId;
use crate::keyed::{
    distinct_keys, distinct_numbers, find, find_number, keys_of, lemma_position, numbers_of,
    swap_removed, Numbered,
};
use crate::marketplace::model::{
    account_items, auction_ids, auction_to_view, bid_ids, bid_to_view, decimals, holders,
    holdings_ok, ids_of, is_among, item_ids, item_to_view, lemma_bid_wf, lemma_create_auction_wf,
    lemma_create_sale_wf, lemma_end_wf, lemma_fee_bound, lemma_with_buyer_wf, lemma_with_id_for,
    sale_ids, sale_to_view, with_id_for, AccountItems, Auction, AuctionModel, AuctionView, Bid,
    BidModel, BidView, MarketError, MarketItem, MarketItemModel, MarketItemType, MarketItemView,
    MarketState, Sale, SaleModel, SaleView, Settlement, MARKETPLACE_FEE,
};
use crate::text::{clone_opt_string, decimal_text, texts, u128_to_string, u64_to_string};
use vstd::prelude::*;
use vstd::string::*;

verus! {

/// The views of a list of items.
pub open spec fn item_models(v: Seq<MarketItem>) -> Seq<MarketItemModel> {
    v.map_values(|i: MarketItem| i@)
}

/// The views of a list of sales.
pub open spec fn sale_models(v: Seq<Sale>) -> Seq<SaleModel> {
    v.map_values(|s: Sale| s@)
}

/// The views of a list of auctions.
pub open spec fn auction_models(v: Seq<Auction>) -> Seq<AuctionModel> {
    v.map_values(|a: Auction| a@)
}

/// The views of a list of bids.
pub open spec fn bid_models(v: Seq<Bid>) -> Seq<BidModel> {
    v.map_values(|b: Bid| b@)
}

/// The marketplace.
pub struct Marketplace {
    owner_id: AccountId,
    total_items: u128,
    total_sales: u128,
    total_auctions: u128,
    total_bids: u128,
    items: Vec<MarketItem>,
    sales: Vec<Sale>,
    auctions: Vec<Auction>,
    bids: Vec<Bid>,
    sales_by_seller: Vec<AccountItems>,
    sales_by_buyer: Vec<AccountItems>,
    auctions_by_seller: Vec<AccountItems>,
    bids_by_bidder: Vec<AccountItems>,
}

impl View for Marketplace {
    type V = MarketState;

    closed spec fn view(&self) -> MarketState {
        MarketState {
            owner_id: self.owner_id@,
            total_items: self.total_items,
            total_sales: self.total_sales,
            total_auctions: self.total_auctions,
            total_bids: self.total_bids,
            items: item_models(self.items@),
            sales: sale_models(self.sales@),
            auctions: auction_models(self.auctions@),
            bids: bid_models(self.bids@),
            sales_by_seller: account_items(self.sales_by_seller@),
            sales_by_buyer: account_items(self.sales_by_buyer@),
            auctions_by_seller: account_items(self.auctions_by_seller@),
            bids_by_bidder: account_items(self.bids_by_bidder@),
        }
    }
}

/// The decimal text of an optional number.
fn opt_decimal_string(n: Option<u128>) -> (r: Option<String>)
    ensures
        crate::text::opt_text(r) == crate::marketplace::model::opt_decimal(n),
{
    match n {
        Some(x) => Some(u128_to_string(x)),
        None => None,
    }
}

/// Puts `id` among the numbers of `account`.
fn add_id(list: &mut Vec<AccountItems>, account: &AccountId, id: u128)
    requires
        holdings_ok(account_items(old(list)@)),
    ensures
        account_items(final(list)@) == with_id_for(account_items(old(list)@), account@, id),
        holdings_ok(account_items(final(list)@)),
{
    proof {
        assert(keys_of(list@) =~= holders(account_items(list@)));
        lemma_with_id_for(account_items(list@), account@, id);
    }
    match find(list, account) {
        Some(i) => {
            proof {
                lemma_position(holders(account_items(list@)), account@, i as int);
                assert(numbers_of(list[i as int].ids@) =~= list[i as int].ids@);
                assert(account_items(list@)[i as int].1 == list[i as int].ids@);
            }
            if find_number(&list[i].ids, id).is_none() {
                list[i].ids.push(id);
            }
            proof {
                assert(account_items(list@) =~= with_id_for(account_items(old(list)@), account@, id));
            }
        },
        None => {
            let mut ids: Vec<u128> = Vec::new();
            ids.push(id);
            assert(ids@ =~= seq![id]);
            list.push(AccountItems { account: account.clone(), ids });
            proof {
                assert(account_items(list@) =~= with_id_for(account_items(old(list)@), account@, id));
            }
        },
    }
}

/// The numbers of `account`, in decimal.
fn ids_in_decimal(list: &Vec<AccountItems>, account: &AccountId) -> (r: Vec<String>)
    requires
        holdings_ok(account_items(list@)),
    ensures
        texts(r@) == decimals(ids_of(account_items(list@), account@)),
{
    proof {
        assert(keys_of(list@) =~= holders(account_items(list@)));
    }
    let mut r: Vec<String> = Vec::new();
    match find(list, account) {
        Some(i) => {
            proof {
                lemma_position(holders(account_items(list@)), account@, i as int);
            }
            let ids = &list[i].ids;
            let mut k: usize = 0;
            assert(texts(r@) =~= decimals(ids@.subrange(0, 0)));
            while k < ids.len()
                invariant
                    k <= ids.len(),
                    texts(r@) == decimals(ids@.subrange(0, k as int)),
                decreases ids.len() - k,
            {
                let ghost before = texts(r@);
                r.push(u128_to_string(ids[k]));
                assert(texts(r@) =~= before.push(decimal_text(ids@[k as int] as nat)));
                assert(decimals(ids@.subrange(0, k + 1)) =~= decimals(ids@.subrange(0, k as int)).push(
                    decimal_text(ids@[k as int] as nat),
                ));
                k += 1;
            }
            assert(ids@.subrange(0, k as int) =~= ids@);
        },
        None => {
            assert(texts(r@) =~= decimals(Seq::<u128>::empty()));
        },
    }
    r
}

/// Appends to `out` the numbers among `ids` that `records` hold, in decimal.
fn push_existing<T: Numbered>(out: &mut Vec<String>, ids: &Vec<u128>, records: &Vec<T>)
    ensures
        texts(final(out)@) == texts(old(out)@) + decimals(ids@.filter(is_among(numbers_of(records@)))),
{
    let ghost start = texts(out@);
    let ghost test = is_among(numbers_of(records@));
    let mut k: usize = 0;
    proof {
        reveal(Seq::filter);
        assert(ids@.subrange(0, 0) =~= Seq::<u128>::empty());
        assert(texts(out@) =~= start + decimals(ids@.subrange(0, 0).filter(test)));
    }
    while k < ids.len()
        invariant
            k <= ids.len(),
            test == is_among(numbers_of(records@)),
            texts(out@) == start + decimals(ids@.subrange(0, k as int).filter(test)),
        decreases ids.len() - k,
    {
        let id: u128 = ids[k];
        proof {
            ids@.subrange(0, k as int).lemma_filter_push(id, test);
            assert(ids@.subrange(0, k as int).push(id) =~= ids@.subrange(0, k + 1));
        }
        let ghost before = texts(out@);
        let ghost kept = ids@.subrange(0, k as int).filter(test);
        if find_number(records, id).is_some() {
            out.push(u128_to_string(id));
            proof {
                assert(texts(out@) =~= before.push(decimal_text(id as nat)));
                assert(decimals(kept.push(id)) =~= decimals(kept).push(decimal_text(id as nat)));
                assert(texts(out@) =~= start + decimals(kept.push(id)));
            }
        }
        k += 1;
    }
    assert(ids@.subrange(0, k as int) =~= ids@);
}

/// The whole state of a marketplace as plain records, for keeping it between
/// calls. Not every such value is the state of a marketplace: see
/// [`MarketState::wf`].
#[derive(Debug)]
pub struct MarketSnapshot {
    pub owner_id: AccountId,
    pub total_items: u128,
    pub total_sales: u128,
    pub total_auctions: u128,
    pub total_bids: u128,
    pub items: Vec<MarketItem>,
    pub sales: Vec<Sale>,
    pub auctions: Vec<Auction>,
    pub bids: Vec<Bid>,
    pub sales_by_seller: Vec<AccountItems>,
    pub sales_by_buyer: Vec<AccountItems>,
    pub auctions_by_seller: Vec<AccountItems>,
    pub bids_by_bidder: Vec<AccountItems>,
}

impl View for MarketSnapshot {
    type V = MarketState;

    open spec fn view(&self) -> MarketState {
        MarketState {
            owner_id: self.owner_id@,
            total_items: self.total_items,
            total_sales: self.total_sales,
            total_auctions: self.total_auctions,
            total_bids: self.total_bids,
            items: item_models(self.items@),
            sales: sale_models(self.sales@),
            auctions: auction_models(self.auctions@),
            bids: bid_models(self.bids@),
            sales_by_seller: account_items(self.sales_by_seller@),
            sales_by_buyer: account_items(self.sales_by_buyer@),
            auctions_by_seller: account_items(self.auctions_by_seller@),
            bids_by_bidder: account_items(self.bids_by_bidder@),
        }
    }
}

/// Whether no account is in `list` twice and no account has a number twice.
fn holdings_in_order(list: &Vec<AccountItems>) -> (ok: bool)
    ensures
        ok == holdings_ok(account_items(list@)),
{
    let ghost table = account_items(list@);
    proof {
        assert(keys_of(list@) =~= holders(table));
    }
    if !distinct_keys(list) {
        return false;
    }
    let mut i: usize = 0;
    while i < list.len()
        invariant
            i <= list.len(),
            table == account_items(list@),
            forall|j: int| 0 <= j < i ==> (#[trigger] table[j]).1.no_duplicates(),
        decreases list.len() - i,
    {
        proof {
            assert(numbers_of(list[i as int].ids@) =~= list[i as int].ids@);
        }
        if !distinct_numbers(&list[i].ids) {
            assert(!table[i as int].1.no_duplicates());
            return false;
        }
        i += 1;
    }
    true
}

impl MarketSnapshot {
    /// Whether the state is that of a marketplace: see [`MarketState::wf`].
    pub fn is_well_formed(&self) -> (ok: bool)
        ensures
            ok == self@.wf(),
    {
        proof {
            assert(numbers_of(self.items@) =~= item_ids(self@.items));
            assert(numbers_of(self.sales@) =~= sale_ids(self@.sales));
            assert(numbers_of(self.auctions@) =~= auction_ids(self@.auctions));
            assert(numbers_of(self.bids@) =~= bid_ids(self@.bids));
        }
        distinct_numbers(&self.items) && distinct_numbers(&self.sales) && distinct_numbers(&self.auctions)
            && distinct_numbers(&self.bids) && holdings_in_order(&self.sales_by_seller)
            && holdings_in_order(&self.sales_by_buyer) && holdings_in_order(&self.auctions_by_seller)
            && holdings_in_order(&self.bids_by_bidder)
    }
}

impl Marketplace {
    /// The state of the marketplace as plain records.
    pub fn into_snapshot(self) -> (s: MarketSnapshot)
        ensures
            s@ == self@,
    {
        MarketSnapshot {
            owner_id: self.owner_id,
            total_items: self.total_items,
            total_sales: self.total_sales,
            total_auctions: self.total_auctions,
            total_bids: self.total_bids,
            items: self.items,
            sales: self.sales,
            auctions: self.auctions,
            bids: self.bids,
            sales_by_seller: self.sales_by_seller,
            sales_by_buyer: self.sales_by_buyer,
            auctions_by_seller: self.auctions_by_seller,
            bids_by_bidder: self.bids_by_bidder,
        }
    }

    /// The marketplace with the state `s`, where that state is well formed;
    /// nothing where it is not.
    pub fn from_snapshot(s: MarketSnapshot) -> (r: Option<Self>)
        ensures
            match r {
                Some(m) => s@.wf() && m@ == s@ && m.wf(),
                None => !s@.wf(),
            },
    {
        if !s.is_well_formed() {
            return None;
        }
        Some(
            Marketplace {
                owner_id: s.owner_id,
                total_items: s.total_items,
                total_sales: s.total_sales,
                total_auctions: s.total_auctions,
                total_bids: s.total_bids,
                items: s.items,
                sales: s.sales,
                auctions: s.auctions,
                bids: s.bids,
                sales_by_seller: s.sales_by_seller,
                sales_by_buyer: s.sales_by_buyer,
                auctions_by_seller: s.auctions_by_seller,
                bids_by_bidder: s.bids_by_bidder,
            },
        )
    }

    /// The marketplace is well formed: see [`MarketState::wf`].
    pub open spec fn wf(&self) -> bool {
        self@.wf()
    }

    proof fn lemma_keys(&self)
        ensures
            numbers_of(self.items@) == item_ids(self@.items),
            numbers_of(self.sales@) == sale_ids(self@.sales),
            numbers_of(self.auctions@) == auction_ids(self@.auctions),
            numbers_of(self.bids@) == bid_ids(self@.bids),
            keys_of(self.sales_by_seller@) == holders(self@.sales_by_seller),
            keys_of(self.auctions_by_seller@) == holders(self@.auctions_by_seller),
    {
        assert(numbers_of(self.items@) =~= item_ids(self@.items));
        assert(numbers_of(self.sales@) =~= sale_ids(self@.sales));
        assert(numbers_of(self.auctions@) =~= auction_ids(self@.auctions));
        assert(numbers_of(self.bids@) =~= bid_ids(self@.bids));
        assert(keys_of(self.sales_by_seller@) =~= holders(self@.sales_by_seller));
        assert(keys_of(self.auctions_by_seller@) =~= holders(self@.auctions_by_seller));
    }

    /// A new marketplace, owned by `owner_id`.
    pub fn new(owner_id: AccountId) -> (m: Self)
        ensures
            m@ == MarketState::initial(owner_id@),
            m.wf(),
    {
        let m = Marketplace {
            owner_id,
            total_items: 0,
            total_sales: 0,
            total_auctions: 0,
            total_bids: 0,
            items: Vec::new(),
            sales: Vec::new(),
            auctions: Vec::new(),
            bids: Vec::new(),
            sales_by_seller: Vec::new(),
            sales_by_buyer: Vec::new(),
            auctions_by_seller: Vec::new(),
            bids_by_bidder: Vec::new(),
        };
        proof {
            let s = MarketState::initial(owner_id@);
            assert(m@.items =~= s.items);
            assert(m@.sales =~= s.sales);
            assert(m@.auctions =~= s.auctions);
            assert(m@.bids =~= s.bids);
            assert(m@.sales_by_seller =~= s.sales_by_seller);
            assert(m@.sales_by_buyer =~= s.sales_by_buyer);
            assert(m@.auctions_by_seller =~= s.auctions_by_seller);
            assert(m@.bids_by_bidder =~= s.bids_by_bidder);
            assert(m@ =~= s);
            assert(item_ids(s.items) =~= Seq::<u128>::empty());
            assert(sale_ids(s.sales) =~= Seq::<u128>::empty());
            assert(auction_ids(s.auctions) =~= Seq::<u128>::empty());
            assert(bid_ids(s.bids) =~= Seq::<u128>::empty());
            assert(holders(s.sales_by_seller) =~= Seq::<Seq<char>>::empty());
        }
        m
    }

    /// The owner of the marketplace.
    pub fn owner_id(&self) -> (r: AccountId)
        ensures
            r@ == self@.owner_id,
    {
        self.owner_id.clone()
    }

    /// Offers an item of `seller` for `price`, and hands back the number of the
    /// sale: one more than the number of items. A sale of that number that is
    /// there already is replaced.
    ///
    /// Fails with `ArithmeticOverflow` where the number or the count of sales
    /// would leave its range.
    pub fn create_sale(&mut self, seller: &AccountId, price: u128, royalty: Option<u128>, now: u64) -> (r: Result<
        u128,
        MarketError,
    >)
        requires
            old(self).wf(),
        ensures
            final(self).wf(),
            match r {
                Ok(id) => old(self)@.total_items < u128::MAX && old(self)@.total_sales < u128::MAX && id
                    == old(self)@.total_items + 1 && final(self)@ == old(self)@.create_sale_next(
                    old(self)@.created_sale(seller@, price, royalty, now),
                ),
                Err(e) => e == MarketError::ArithmeticOverflow && (old(self)@.total_items == u128::MAX
                    || old(self)@.total_sales == u128::MAX) && final(self)@ == old(self)@,
            },
    {
        if self.total_items == u128::MAX || self.total_sales == u128::MAX {
            return Err(MarketError::ArithmeticOverflow);
        }
        let id: u128 = self.total_items + 1;
        let sale = Sale {
            id,
            seller_id: seller.clone(),
            price,
            royalty,
            created_at: now / 1_000_000,
            updated_at: now / 1_000_000,
        };
        let ghost made = old(self)@.created_sale(seller@, price, royalty, now);
        assert(sale@ == made);
        proof {
            self.lemma_keys();
            lemma_create_sale_wf(self@, made);
        }
        match find_number(&self.sales, id) {
            Some(i) => {
                proof {
                    lemma_position(sale_ids(self@.sales), id, i as int);
                }
                self.sales[i] = sale;
            },
            None => {
                self.sales.push(sale);
            },
        }
        add_id(&mut self.sales_by_seller, seller, id);
        self.total_sales = self.total_sales + 1;
        proof {
            let t = old(self)@.create_sale_next(made);
            assert(self@.sales =~= t.sales);
            assert(self@ =~= t);
        }
        Ok(id)
    }

    /// Buys the item `item_id`, which is for sale, for `buyer` with `deposit`,
    /// and hands back the payments to make: the fee of 2.5% of the price to the
    /// owner of the marketplace, the rest of the price to the seller.
    ///
    /// Fails with `ItemNotFound`, else with `NotForSale` for an item in an
    /// auction, else with `InsufficientDeposit` for less than the price, else
    /// with `ArithmeticOverflow` where the fee cannot be computed.
    pub fn buy_item(&mut self, buyer: &AccountId, item_id: u128, deposit: u128) -> (r: Result<
        Settlement,
        MarketError,
    >)
        requires
            old(self).wf(),
        ensures
            final(self).wf(),
            match r {
                Ok(pay) => old(self)@.buy_error(item_id, deposit) is None && final(self)@ == old(self)@.with_buyer(item_id, buyer@) && pay@ == old(self)@.buy_settlement(item_id),
                Err(e) => old(self)@.buy_error(item_id, deposit) == Some(e) && final(self)@ == old(self)@,
            },
    {
        proof {
            self.lemma_keys();
        }
        let at: usize = match find_number(&self.items, item_id) {
            Some(i) => i,
            None => {
                return Err(MarketError::ItemNotFound);
            },
        };
        proof {
            lemma_position(item_ids(self@.items), item_id, at as int);
        }
        match &self.items[at].item_type {
            MarketItemType::Sale { price, seller_id, royalty } => {
                if deposit < *price {
                    return Err(MarketError::InsufficientDeposit);
                }
                let scaled: u128 = match price.checked_mul(MARKETPLACE_FEE as u128) {
                    Some(x) => x,
                    None => {
                        return Err(MarketError::ArithmeticOverflow);
                    },
                };
                let fee: u128 = scaled / 10000;
                proof {
                    lemma_fee_bound(*price);
                    lemma_with_buyer_wf(self@, item_id, buyer@);
                }
                let pay = Settlement {
                    owner_id: self.owner_id.clone(),
                    fee,
                    seller_id: seller_id.clone(),
                    proceeds: *price - fee,
                };
                self.items[at].buyer_id = Some(buyer.clone());
                add_id(&mut self.sales_by_buyer, buyer, item_id);
                proof {
                    let t = old(self)@.with_buyer(item_id, buyer@);
                    assert(self@.items =~= t.items);
                    assert(self@ =~= t);
                }
                Ok(pay)
            },
            MarketItemType::Auction { .. } => Err(MarketError::NotForSale),
        }
    }

    /// Opens an auction of `seller`, and hands back its number: one more than
    /// the number of items. An auction of that number that is there already is
    /// replaced.
    ///
    /// Fails with `ArithmeticOverflow` where the number or the count of auctions
    /// would leave its range.
    pub fn create_auction(
        &mut self,
        seller: &AccountId,
        start_price: u128,
        end_price: u128,
        royalty: Option<u128>,
        start_time: u64,
        end_time: u64,
        now: u64,
    ) -> (r: Result<u128, MarketError>)
        requires
            old(self).wf(),
        ensures
            final(self).wf(),
            match r {
                Ok(id) => old(self)@.total_items < u128::MAX && old(self)@.total_auctions < u128::MAX
                    && id == old(self)@.total_items + 1 && final(self)@ == old(self)@.create_auction_next(
                    old(self)@.created_auction(
                        seller@,
                        start_price,
                        end_price,
                        royalty,
                        start_time,
                        end_time,
                        now,
                    ),
                ),
                Err(e) => e == MarketError::ArithmeticOverflow && (old(self)@.total_items == u128::MAX
                    || old(self)@.total_auctions == u128::MAX) && final(self)@ == old(self)@,
            },
    {
        if self.total_items == u128::MAX || self.total_auctions == u128::MAX {
            return Err(MarketError::ArithmeticOverflow);
        }
        let id: u128 = self.total_items + 1;
        let auction = Auction {
            id,
            seller_id: seller.clone(),
            start_price,
            end_price,
            royalty,
            start_time,
            end_time,
            highest_bidder_id: None,
            highest_bid: None,
            created_at: now / 1_000_000,
            updated_at: now / 1_000_000,
        };
        let ghost made = old(self)@.created_auction(
            seller@,
            start_price,
            end_price,
            royalty,
            start_time,
            end_time,
            now,
        );
        assert(auction@ == made);
        proof {
            self.lemma_keys();
            lemma_create_auction_wf(self@, made);
        }
        match find_number(&self.auctions, id) {
            Some(i) => {
                proof {
                    lemma_position(auction_ids(self@.auctions), id, i as int);
                }
                self.auctions[i] = auction;
            },
            None => {
                self.auctions.push(auction);
            },
        }
        add_id(&mut self.auctions_by_seller, seller, id);
        self.total_auctions = self.total_auctions + 1;
        proof {
            let t = old(self)@.create_auction_next(made);
            assert(self@.auctions =~= t.auctions);
            assert(self@ =~= t);
        }
        Ok(id)
    }

    /// Places a bid of `deposit` of `bidder` on the auction `auction_id`, and
    /// hands back the payments to make: the fee of 2.5% of the deposit to the
    /// owner of the marketplace, the rest to the seller.
    ///
    /// Fails with `AuctionNotFound`, else with `AuctionNotStarted` before the
    /// start, else with `AuctionEnded` after the end, else with `BidTooLow` for
    /// a deposit that is not more than the highest bid so far, else with
    /// `ArithmeticOverflow` where the fee cannot be computed or the count of
    /// bids would leave its range.
    pub fn place_bid(&mut self, bidder: &AccountId, auction_id: u128, deposit: u128, now: u64) -> (r: Result<
        Settlement,
        MarketError,
    >)
        requires
            old(self).wf(),
        ensures
            final(self).wf(),
            match r {
                Ok(pay) => old(self)@.bid_error(auction_id, deposit, now) is None && final(self)@ == old(self)@.bid_next(bidder@, auction_id, deposit) && pay@ == old(self)@.bid_settlement(
                    auction_id,
                    deposit,
                ),
                Err(e) => old(self)@.bid_error(auction_id, deposit, now) == Some(e) && final(self)@ == old(self)@,
            },
    {
        proof {
            self.lemma_keys();
        }
        let at: usize = match find_number(&self.auctions, auction_id) {
            Some(i) => i,
            None => {
                return Err(MarketError::AuctionNotFound);
            },
        };
        proof {
            lemma_position(auction_ids(self@.auctions), auction_id, at as int);
        }
        if !(now >= self.auctions[at].start_time) {
            return Err(MarketError::AuctionNotStarted);
        }
        if !(now <= self.auctions[at].end_time) {
            return Err(MarketError::AuctionEnded);
        }
        let highest: u128 = match self.auctions[at].highest_bid {
            Some(b) => b,
            None => 0,
        };
        if !(deposit > highest) {
            return Err(MarketError::BidTooLow);
        }
        let scaled: u128 = match deposit.checked_mul(MARKETPLACE_FEE as u128) {
            Some(x) => x,
            None => {
                return Err(MarketError::ArithmeticOverflow);
            },
        };
        if self.total_bids == u128::MAX {
            return Err(MarketError::ArithmeticOverflow);
        }
        let fee: u128 = scaled / 10000;
        proof {
            lemma_fee_bound(deposit);
            lemma_bid_wf(self@, bidder@, auction_id, deposit);
        }
        let pay = Settlement {
            owner_id: self.owner_id.clone(),
            fee,
            seller_id: self.auctions[at].seller_id.clone(),
            proceeds: deposit - fee,
        };
        self.auctions[at].highest_bidder_id = Some(bidder.clone());
        self.auctions[at].highest_bid = Some(deposit);
        add_id(&mut self.bids_by_bidder, bidder, self.total_bids + 1);
        self.total_bids = self.total_bids + 1;
        proof {
            let t = old(self)@.bid_next(bidder@, auction_id, deposit);
            assert(self@.auctions =~= t.auctions);
            assert(self@ =~= t);
        }
        Ok(pay)
    }

    /// Ends the auction `auction_id` after its end: the highest bidder, if there
    /// is one, is the buyer of the item of the auction's number, and the auction
    /// is taken away.
    ///
    /// Fails with `AuctionNotFound`, else with `AuctionNotEnded` at or before the
    /// end, else with `ItemNotFound` where there is a highest bidder and no item
    /// of the auction's number.
    pub fn end_auction(&mut self, auction_id: u128, now: u64) -> (r: Result<(), MarketError>)
        requires
            old(self).wf(),
        ensures
            final(self).wf(),
            match r {
                Ok(_) => old(self)@.end_error(auction_id, now) is None && final(self)@ == old(self)@.end_next(auction_id),
                Err(e) => old(self)@.end_error(auction_id, now) == Some(e) && final(self)@ == old(self)@,
            },
    {
        proof {
            self.lemma_keys();
        }
        let at: usize = match find_number(&self.auctions, auction_id) {
            Some(i) => i,
            None => {
                return Err(MarketError::AuctionNotFound);
            },
        };
        proof {
            lemma_position(auction_ids(self@.auctions), auction_id, at as int);
        }
        if !(now > self.auctions[at].end_time) {
            return Err(MarketError::AuctionNotEnded);
        }
        let winner = clone_opt_string(&self.auctions[at].highest_bidder_id);
        match winner {
            Some(bidder) => {
                let slot: usize = match find_number(&self.items, auction_id) {
                    Some(i) => i,
                    None => {
                        return Err(MarketError::ItemNotFound);
                    },
                };
                proof {
                    lemma_position(item_ids(self@.items), auction_id, slot as int);
                    lemma_end_wf(self@, auction_id);
                    lemma_with_buyer_wf(self@, auction_id, bidder@);
                }
                self.items[slot].buyer_id = Some(bidder.clone());
                add_id(&mut self.sales_by_buyer, &bidder, auction_id);
                proof {
                    let sold = old(self)@.with_buyer(auction_id, bidder@);
                    assert(self@.items =~= sold.items);
                    assert(self@ =~= sold);
                }
            },
            None => {
                proof {
                    lemma_end_wf(self@, auction_id);
                }
            },
        }
        let _ = self.auctions.swap_remove(at);
        proof {
            let t = old(self)@.end_next(auction_id);
            assert(self@.auctions =~= swap_removed(old(self)@.auctions, at as int));
            assert(self@ =~= t);
        }
        Ok(())
    }

    /// The textual form of an item.
    pub fn item_to_view(&self, item: &MarketItem) -> (r: MarketItemView)
        ensures
            r@ == item_to_view(item@),
    {
        match &item.item_type {
            MarketItemType::Sale { seller_id, price, royalty } => MarketItemView {
                id: u128_to_string(item.id),
                item_type: String::from_str("sale"),
                seller_id: seller_id.clone(),
                price: Some(u128_to_string(*price)),
                buyer_id: clone_opt_string(&item.buyer_id),
                start_price: None,
                end_price: None,
                royalty: opt_decimal_string(*royalty),
                start_time: None,
                end_time: None,
                created_at: u64_to_string(item.created_at),
                updated_at: u64_to_string(item.updated_at),
            },
            MarketItemType::Auction { seller_id, start_price, end_price, royalty, start_time, end_time } => MarketItemView {
                id: u128_to_string(item.id),
                item_type: String::from_str("auction"),
                seller_id: seller_id.clone(),
                price: None,
                buyer_id: clone_opt_string(&item.buyer_id),
                start_price: Some(u128_to_string(*start_price)),
                end_price: Some(u128_to_string(*end_price)),
                royalty: opt_decimal_string(*royalty),
                start_time: Some(u64_to_string(*start_time)),
                end_time: Some(u64_to_string(*end_time)),
                created_at: u64_to_string(item.created_at),
                updated_at: u64_to_string(item.updated_at),
            },
        }
    }

    /// The textual form of a sale.
    pub fn sale_to_view(&self, sale: &Sale) -> (r: SaleView)
        ensures
            r@ == sale_to_view(sale@),
    {
        SaleView {
            id: u128_to_string(sale.id),
            seller_id: sale.seller_id.clone(),
            price: u128_to_string(sale.price),
            royalty: opt_decimal_string(sale.royalty),
            created_at: u64_to_string(sale.created_at),
            updated_at: u64_to_string(sale.updated_at),
        }
    }

    /// The textual form of an auction.
    pub fn auction_to_view(&self, auction: &Auction) -> (r: AuctionView)
        ensures
            r@ == auction_to_view(auction@),
    {
        AuctionView {
            id: u128_to_string(auction.id),
            seller_id: auction.seller_id.clone(),
            start_price: u128_to_string(auction.start_price),
            end_price: u128_to_string(auction.end_price),
            royalty: opt_decimal_string(auction.royalty),
            start_time: u64_to_string(auction.start_time),
            end_time: u64_to_string(auction.end_time),
            highest_bidder_id: clone_opt_string(&auction.highest_bidder_id),
            highest_bid: opt_decimal_string(auction.highest_bid),
            created_at: u64_to_string(auction.created_at),
            updated_at: u64_to_string(auction.updated_at),
        }
    }

    /// The textual form of a bid.
    pub fn bid_to_view(&self, bid: &Bid) -> (r: BidView)
        ensures
            r@ == bid_to_view(bid@),
    {
        BidView {
            id: u128_to_string(bid.id),
            bidder_id: bid.bidder_id.clone(),
            auction_id: u128_to_string(bid.auction_id),
            amount: u128_to_string(bid.amount),
            created_at: u64_to_string(bid.created_at),
        }
    }

    /// The item `item_id` in the textual form, if there is one.
    pub fn get_item(&self, item_id: u128) -> (r: Option<MarketItemView>)
        requires
            self.wf(),
        ensures
            match r {
                Some(v) => self@.has_item(item_id) && v@ == item_to_view(self@.item(item_id)),
                None => !self@.has_item(item_id),
            },
    {
        proof {
            self.lemma_keys();
        }
        match find_number(&self.items, item_id) {
            Some(i) => {
                proof {
                    lemma_position(item_ids(self@.items), item_id, i as int);
                }
                Some(self.item_to_view(&self.items[i]))
            },
            None => None,
        }
    }

    /// The sale `sale_id` in the textual form, if there is one.
    pub fn get_sale(&self, sale_id: u128) -> (r: Option<SaleView>)
        requires
            self.wf(),
        ensures
            match r {
                Some(v) => self@.has_sale(sale_id) && v@ == sale_to_view(self@.sale(sale_id)),
                None => !self@.has_sale(sale_id),
            },
    {
        proof {
            self.lemma_keys();
        }
        match find_number(&self.sales, sale_id) {
            Some(i) => {
                proof {
                    lemma_position(sale_ids(self@.sales), sale_id, i as int);
                }
                Some(self.sale_to_view(&self.sales[i]))
            },
            None => None,
        }
    }

    /// The auction `auction_id` in the textual form, if there is one.
    pub fn get_auction(&self, auction_id: u128) -> (r: Option<AuctionView>)
        requires
            self.wf(),
        ensures
            match r {
                Some(v) => self@.has_auction(auction_id) && v@ == auction_to_view(self@.auction(auction_id)),
                None => !self@.has_auction(auction_id),
            },
    {
        proof {
            self.lemma_keys();
        }
        match find_number(&self.auctions, auction_id) {
            Some(i) => {
                proof {
                    lemma_position(auction_ids(self@.auctions), auction_id, i as int);
                }
                Some(self.auction_to_view(&self.auctions[i]))
            },
            None => None,
        }
    }

    /// The bid `bid_id` in the textual form, if there is one.
    pub fn get_bid(&self, bid_id: u128) -> (r: Option<BidView>)
        requires
            self.wf(),
        ensures
            match r {
                Some(v) => self@.has_bid(bid_id) && v@ == bid_to_view(self@.bid(bid_id)),
                None => !self@.has_bid(bid_id),
            },
    {
        proof {
            self.lemma_keys();
        }
        match find_number(&self.bids, bid_id) {
            Some(i) => {
                proof {
                    lemma_position(bid_ids(self@.bids), bid_id, i as int);
                }
                Some(self.bid_to_view(&self.bids[i]))
            },
            None => None,
        }
    }

    /// The numbers of the sales and then of the auctions of `owner_id` that are
    /// there still, in decimal.
    pub fn get_items_by_owner(&self, owner_id: AccountId) -> (r: Vec<String>)
        requires
            self.wf(),
        ensures
            texts(r@) == self@.items_by_owner(owner_id@),
    {
        proof {
            self.lemma_keys();
            reveal(Seq::filter);
        }
        let mut items: Vec<String> = Vec::new();
        assert(texts(items@) =~= Seq::<Seq<char>>::empty());
        match find(&self.sales_by_seller, &owner_id) {
            Some(i) => {
                proof {
                    lemma_position(holders(self@.sales_by_seller), owner_id@, i as int);
                }
                push_existing(&mut items, &self.sales_by_seller[i].ids, &self.sales);
            },
            None => {
                assert(ids_of(self@.sales_by_seller, owner_id@).filter(is_among(sale_ids(self@.sales)))
                    =~= Seq::<u128>::empty());
            },
        }
        assert(texts(items@) =~= decimals(
            ids_of(self@.sales_by_seller, owner_id@).filter(is_among(sale_ids(self@.sales))),
        ));
        match find(&self.auctions_by_seller, &owner_id) {
            Some(i) => {
                proof {
                    lemma_position(holders(self@.auctions_by_seller), owner_id@, i as int);
                }
                push_existing(&mut items, &self.auctions_by_seller[i].ids, &self.auctions);
            },
            None => {
                assert(ids_of(self@.auctions_by_seller, owner_id@).filter(
                    is_among(auction_ids(self@.auctions)),
                ) =~= Seq::<u128>::empty());
            },
        }
        assert(texts(items@) =~= self@.items_by_owner(owner_id@));
        items
    }

    /// The numbers of the sales of `seller_id`, in decimal.
    pub fn get_sales_by_seller(&self, seller_id: AccountId) -> (r: Vec<String>)
        requires
            self.wf(),
        ensures
            texts(r@) == decimals(ids_of(self@.sales_by_seller, seller_id@)),
    {
        ids_in_decimal(&self.sales_by_seller, &seller_id)
    }

    /// The numbers of the auctions of `seller_id`, in decimal.
    pub fn get_auctions_by_seller(&self, seller_id: AccountId) -> (r: Vec<String>)
        requires
            self.wf(),
        ensures
            texts(r@) == decimals(ids_of(self@.auctions_by_seller, seller_id@)),
    {
        ids_in_decimal(&self.auctions_by_seller, &seller_id)
    }

    /// The numbers of the bids of `bidder_id`, in decimal.
    pub fn get_bids_by_bidder(&self, bidder_id: AccountId) -> (r: Vec<String>)
        requires
            self.wf(),
        ensures
            texts(r@) == decimals(ids_of(self@.bids_by_bidder, bidder_id@)),
    {
        ids_in_decimal(&self.bids_by_bidder, &bidder_id)
    }

    /// The numbers of the items that `buyer_id` has bought, in decimal.
    pub fn get_sales_by_buyer(&self, buyer_id: AccountId) -> (r: Vec<String>)
        requires
            self.wf(),
        ensures
            texts(r@) == decimals(ids_of(self@.sales_by_buyer, buyer_id@)),
    {
        ids_in_decimal(&self.sales_by_buyer, &buyer_id)
    }

    /// The number of items, in decimal.
    pub fn get_total_items(&self) -> (r: String)
        ensures
            r@ == decimal_text(self@.total_items as nat),
    {
        u128_to_string(self.total_items)
    }

    /// The number of sales made, in decimal.
    pub fn get_total_sales(&self) -> (r: String)
        ensures
            r@ == decimal_text(self@.total_sales as nat),
    {
        u128_to_string(self.total_sales)
    }

    /// The number of auctions made, in decimal.
    pub fn get_total_auctions(&self) -> (r: String)
        ensures
            r@ == decimal_text(self@.total_auctions as nat),
    {
        u128_to_string(self.total_auctions)
    }

    /// The number of bids placed, in decimal.
    pub fn get_total_bids(&self) -> (r: String)
        ensures
            r@ == decimal_text(self@.total_bids as nat),
    {
        u128_to_string(self.total_bids)
    }
}

} // verus!
