//! The records of the marketplace, their textual forms for callers, the
//! marketplace as a mathematical value, what holds of every such value, and
//! what each call makes of it.

use crate::account::AccountId;
use crate::keyed::{
    lemma_position, lemma_position_in_range, lemma_push_fresh, lemma_swap_removed, position,
    swap_removed, Keyed, Numbered,
};
use crate::text::{decimal_text, opt_text};
use vstd::prelude::*;
use vstd::string::*;

verus! {

/// The fee of the marketplace, in basis points of a payment: 2.5%.
pub const MARKETPLACE_FEE: u32 = 250;

/// The part of `amount` that the marketplace takes.
pub open spec fn fee_of(amount: u128) -> nat {
    ((amount * MARKETPLACE_FEE) / 10000) as nat
}

/// The decimal text of an optional number.
pub open spec fn opt_decimal(n: Option<u128>) -> Option<Seq<char>> {
    match n {
        Some(x) => Some(decimal_text(x as nat)),
        None => None,
    }
}

/// How an item is offered.
#[derive(Debug)]
pub enum MarketItemType {
    /// For sale at a price.
    Sale { price: u128, seller_id: AccountId, royalty: Option<u128> },
    /// In an auction.
    Auction {
        start_price: u128,
        seller_id: AccountId,
        end_price: u128,
        royalty: Option<u128>,
        start_time: u64,
        end_time: u64,
    },
}

/// The view of a [`MarketItemType`].
pub enum MarketItemTypeModel {
    Sale { price: u128, seller_id: Seq<char>, royalty: Option<u128> },
    Auction {
        start_price: u128,
        seller_id: Seq<char>,
        end_price: u128,
        royalty: Option<u128>,
        start_time: u64,
        end_time: u64,
    },
}

impl View for MarketItemType {
    type V = MarketItemTypeModel;

    open spec fn view(&self) -> MarketItemTypeModel {
        match *self {
            MarketItemType::Sale { price, seller_id, royalty } => MarketItemTypeModel::Sale {
                price,
                seller_id: seller_id@,
                royalty,
            },
            MarketItemType::Auction { start_price, seller_id, end_price, royalty, start_time, end_time } => MarketItemTypeModel::Auction {
                start_price,
                seller_id: seller_id@,
                end_price,
                royalty,
                start_time,
                end_time,
            },
        }
    }
}

/// An item of the marketplace.
#[derive(Debug)]
pub struct MarketItem {
    pub id: u128,
    pub item_type: MarketItemType,
    pub buyer_id: Option<AccountId>,
    pub created_at: u64,
    pub updated_at: u64,
}

/// The view of a [`MarketItem`].
pub struct MarketItemModel {
    pub id: u128,
    pub item_type: MarketItemTypeModel,
    pub buyer_id: Option<Seq<char>>,
    pub created_at: u64,
    pub updated_at: u64,
}

impl View for MarketItem {
    type V = MarketItemModel;

    open spec fn view(&self) -> MarketItemModel {
        MarketItemModel {
            id: self.id,
            item_type: self.item_type@,
            buyer_id: opt_text(self.buyer_id),
            created_at: self.created_at,
            updated_at: self.updated_at,
        }
    }
}

impl Numbered for MarketItem {
    open spec fn number(&self) -> u128 {
        self.id
    }

    fn id(&self) -> (n: u128) {
        self.id
    }
}

/// An item in the textual form: `item_type` is `"sale"` or `"auction"`, and
/// the parts of the other kind are absent.
#[derive(Debug)]
pub struct MarketItemView {
    pub id: String,
    pub item_type: String,
    pub seller_id: String,
    pub price: Option<String>,
    pub buyer_id: Option<String>,
    pub start_price: Option<String>,
    pub end_price: Option<String>,
    pub royalty: Option<String>,
    pub start_time: Option<String>,
    pub end_time: Option<String>,
    pub created_at: String,
    pub updated_at: String,
}

/// The view of a [`MarketItemView`].
pub struct MarketItemViewModel {
    pub id: Seq<char>,
    pub item_type: Seq<char>,
    pub seller_id: Seq<char>,
    pub price: Option<Seq<char>>,
    pub buyer_id: Option<Seq<char>>,
    pub start_price: Option<Seq<char>>,
    pub end_price: Option<Seq<char>>,
    pub royalty: Option<Seq<char>>,
    pub start_time: Option<Seq<char>>,
    pub end_time: Option<Seq<char>>,
    pub created_at: Seq<char>,
    pub updated_at: Seq<char>,
}

impl View for MarketItemView {
    type V = MarketItemViewModel;

    open spec fn view(&self) -> MarketItemViewModel {
        MarketItemViewModel {
            id: self.id@,
            item_type: self.item_type@,
            seller_id: self.seller_id@,
            price: opt_text(self.price),
            buyer_id: opt_text(self.buyer_id),
            start_price: opt_text(self.start_price),
            end_price: opt_text(self.end_price),
            royalty: opt_text(self.royalty),
            start_time: opt_text(self.start_time),
            end_time: opt_text(self.end_time),
            created_at: self.created_at@,
            updated_at: self.updated_at@,
        }
    }
}

/// An offer at a price. Times are in milliseconds.
#[derive(Debug)]
pub struct Sale {
    pub id: u128,
    pub seller_id: AccountId,
    pub price: u128,
    pub royalty: Option<u128>,
    pub created_at: u64,
    pub updated_at: u64,
}

/// The view of a [`Sale`].
pub struct SaleModel {
    pub id: u128,
    pub seller_id: Seq<char>,
    pub price: u128,
    pub royalty: Option<u128>,
    pub created_at: u64,
    pub updated_at: u64,
}

impl View for Sale {
    type V = SaleModel;

    open spec fn view(&self) -> SaleModel {
        SaleModel {
            id: self.id,
            seller_id: self.seller_id@,
            price: self.price,
            royalty: self.royalty,
            created_at: self.created_at,
            updated_at: self.updated_at,
        }
    }
}

impl Numbered for Sale {
    open spec fn number(&self) -> u128 {
        self.id
    }

    fn id(&self) -> (n: u128) {
        self.id
    }
}

/// A sale in the textual form.
#[derive(Debug)]
pub struct SaleView {
    pub id: String,
    pub seller_id: String,
    pub price: String,
    pub royalty: Option<String>,
    pub created_at: String,
    pub updated_at: String,
}

/// The view of a [`SaleView`].
pub struct SaleViewModel {
    pub id: Seq<char>,
    pub seller_id: Seq<char>,
    pub price: Seq<char>,
    pub royalty: Option<Seq<char>>,
    pub created_at: Seq<char>,
    pub updated_at: Seq<char>,
}

impl View for SaleView {
    type V = SaleViewModel;

    open spec fn view(&self) -> SaleViewModel {
        SaleViewModel {
            id: self.id@,
            seller_id: self.seller_id@,
            price: self.price@,
            royalty: opt_text(self.royalty),
            created_at: self.created_at@,
            updated_at: self.updated_at@,
        }
    }
}

/// An auction. The start and the end are in nanoseconds, the times of creation
/// and update in milliseconds.
#[derive(Debug)]
pub struct Auction {
    pub id: u128,
    pub seller_id: AccountId,
    pub start_price: u128,
    pub end_price: u128,
    pub royalty: Option<u128>,
    pub start_time: u64,
    pub end_time: u64,
    pub highest_bidder_id: Option<AccountId>,
    pub highest_bid: Option<u128>,
    pub created_at: u64,
    pub updated_at: u64,
}

/// The view of an [`Auction`].
pub struct AuctionModel {
    pub id: u128,
    pub seller_id: Seq<char>,
    pub start_price: u128,
    pub end_price: u128,
    pub royalty: Option<u128>,
    pub start_time: u64,
    pub end_time: u64,
    pub highest_bidder_id: Option<Seq<char>>,
    pub highest_bid: Option<u128>,
    pub created_at: u64,
    pub updated_at: u64,
}

impl View for Auction {
    type V = AuctionModel;

    open spec fn view(&self) -> AuctionModel {
        AuctionModel {
            id: self.id,
            seller_id: self.seller_id@,
            start_price: self.start_price,
            end_price: self.end_price,
            royalty: self.royalty,
            start_time: self.start_time,
            end_time: self.end_time,
            highest_bidder_id: opt_text(self.highest_bidder_id),
            highest_bid: self.highest_bid,
            created_at: self.created_at,
            updated_at: self.updated_at,
        }
    }
}

impl Numbered for Auction {
    open spec fn number(&self) -> u128 {
        self.id
    }

    fn id(&self) -> (n: u128) {
        self.id
    }
}

/// An auction in the textual form.
#[derive(Debug)]
pub struct AuctionView {
    pub id: String,
    pub seller_id: String,
    pub start_price: String,
    pub end_price: String,
    pub royalty: Option<String>,
    pub start_time: String,
    pub end_time: String,
    pub highest_bidder_id: Option<String>,
    pub highest_bid: Option<String>,
    pub created_at: String,
    pub updated_at: String,
}

/// The view of an [`AuctionView`].
pub struct AuctionViewModel {
    pub id: Seq<char>,
    pub seller_id: Seq<char>,
    pub start_price: Seq<char>,
    pub end_price: Seq<char>,
    pub royalty: Option<Seq<char>>,
    pub start_time: Seq<char>,
    pub end_time: Seq<char>,
    pub highest_bidder_id: Option<Seq<char>>,
    pub highest_bid: Option<Seq<char>>,
    pub created_at: Seq<char>,
    pub updated_at: Seq<char>,
}

impl View for AuctionView {
    type V = AuctionViewModel;

    open spec fn view(&self) -> AuctionViewModel {
        AuctionViewModel {
            id: self.id@,
            seller_id: self.seller_id@,
            start_price: self.start_price@,
            end_price: self.end_price@,
            royalty: opt_text(self.royalty),
            start_time: self.start_time@,
            end_time: self.end_time@,
            highest_bidder_id: opt_text(self.highest_bidder_id),
            highest_bid: opt_text(self.highest_bid),
            created_at: self.created_at@,
            updated_at: self.updated_at@,
        }
    }
}

/// A bid.
#[derive(Debug)]
pub struct Bid {
    pub id: u128,
    pub bidder_id: AccountId,
    pub auction_id: u128,
    pub amount: u128,
    pub created_at: u64,
}

/// The view of a [`Bid`].
pub struct BidModel {
    pub id: u128,
    pub bidder_id: Seq<char>,
    pub auction_id: u128,
    pub amount: u128,
    pub created_at: u64,
}

impl View for Bid {
    type V = BidModel;

    open spec fn view(&self) -> BidModel {
        BidModel {
            id: self.id,
            bidder_id: self.bidder_id@,
            auction_id: self.auction_id,
            amount: self.amount,
            created_at: self.created_at,
        }
    }
}

impl Numbered for Bid {
    open spec fn number(&self) -> u128 {
        self.id
    }

    fn id(&self) -> (n: u128) {
        self.id
    }
}

/// A bid in the textual form.
#[derive(Debug)]
pub struct BidView {
    pub id: String,
    pub bidder_id: String,
    pub auction_id: String,
    pub amount: String,
    pub created_at: String,
}

/// The view of a [`BidView`].
pub struct BidViewModel {
    pub id: Seq<char>,
    pub bidder_id: Seq<char>,
    pub auction_id: Seq<char>,
    pub amount: Seq<char>,
    pub created_at: Seq<char>,
}

impl View for BidView {
    type V = BidViewModel;

    open spec fn view(&self) -> BidViewModel {
        BidViewModel {
            id: self.id@,
            bidder_id: self.bidder_id@,
            auction_id: self.auction_id@,
            amount: self.amount@,
            created_at: self.created_at@,
        }
    }
}

/// The numbers that an account has to its name, in the order in which they came.
#[derive(Debug)]
pub struct AccountItems {
    pub account: AccountId,
    pub ids: Vec<u128>,
}

impl Keyed for AccountItems {
    open spec fn key_text(&self) -> Seq<char> {
        self.account@
    }

    fn key(&self) -> (k: &String) {
        &self.account
    }
}

/// The view of a list of accounts and their numbers.
pub open spec fn account_items(v: Seq<AccountItems>) -> Seq<(Seq<char>, Seq<u128>)> {
    v.map_values(|a: AccountItems| (a.account@, a.ids@))
}

/// The payments that a purchase or a bid sets off: the fee to the owner of the
/// marketplace, the rest to the seller. Making them is the caller's part.
#[derive(Debug)]
pub struct Settlement {
    pub owner_id: AccountId,
    pub fee: u128,
    pub seller_id: AccountId,
    pub proceeds: u128,
}

/// The view of a [`Settlement`].
pub struct SettlementModel {
    pub owner_id: Seq<char>,
    pub fee: u128,
    pub seller_id: Seq<char>,
    pub proceeds: u128,
}

impl View for Settlement {
    type V = SettlementModel;

    open spec fn view(&self) -> SettlementModel {
        SettlementModel {
            owner_id: self.owner_id@,
            fee: self.fee,
            seller_id: self.seller_id@,
            proceeds: self.proceeds,
        }
    }
}

/// Why a call on the marketplace failed.
#[derive(Clone, Copy, Debug, PartialEq, Eq, Structural)]
pub enum MarketError {
    ItemNotFound,
    /// The item is in an auction.
    NotForSale,
    InsufficientDeposit,
    AuctionNotFound,
    AuctionNotStarted,
    AuctionEnded,
    /// The bid is not more than the highest so far.
    BidTooLow,
    AuctionNotEnded,
    /// A number or an amount would leave the range of its type.
    ArithmeticOverflow,
}

impl MarketError {
    /// The short reason shown to the caller.
    pub open spec fn message_text(self) -> Seq<char> {
        match self {
            MarketError::ItemNotFound => "Item not found"@,
            MarketError::NotForSale => "Item is not for sale"@,
            MarketError::InsufficientDeposit => "Insufficient deposit"@,
            MarketError::AuctionNotFound => "Auction not found"@,
            MarketError::AuctionNotStarted => "Auction has not started"@,
            MarketError::AuctionEnded => "Auction has ended"@,
            MarketError::BidTooLow => "Bid is not high enough"@,
            MarketError::AuctionNotEnded => "Auction has not ended yet"@,
            MarketError::ArithmeticOverflow => "Arithmetic overflow"@,
        }
    }

    /// The short reason shown to the caller.
    pub fn message(self) -> (s: String)
        ensures
            s@ == self.message_text(),
    {
        let text: &str = match self {
            MarketError::ItemNotFound => "Item not found",
            MarketError::NotForSale => "Item is not for sale",
            MarketError::InsufficientDeposit => "Insufficient deposit",
            MarketError::AuctionNotFound => "Auction not found",
            MarketError::AuctionNotStarted => "Auction has not started",
            MarketError::AuctionEnded => "Auction has ended",
            MarketError::BidTooLow => "Bid is not high enough",
            MarketError::AuctionNotEnded => "Auction has not ended yet",
            MarketError::ArithmeticOverflow => "Arithmetic overflow",
        };
        String::from_str(text)
    }
}

/// The numbers of a list of items.
pub open spec fn item_ids(s: Seq<MarketItemModel>) -> Seq<u128> {
    s.map_values(|i: MarketItemModel| i.id)
}

/// The numbers of a list of sales.
pub open spec fn sale_ids(s: Seq<SaleModel>) -> Seq<u128> {
    s.map_values(|x: SaleModel| x.id)
}

/// The numbers of a list of auctions.
pub open spec fn auction_ids(s: Seq<AuctionModel>) -> Seq<u128> {
    s.map_values(|a: AuctionModel| a.id)
}

/// The numbers of a list of bids.
pub open spec fn bid_ids(s: Seq<BidModel>) -> Seq<u128> {
    s.map_values(|b: BidModel| b.id)
}

/// The accounts of a list of accounts and their numbers.
pub open spec fn holders(s: Seq<(Seq<char>, Seq<u128>)>) -> Seq<Seq<char>> {
    s.map_values(|e: (Seq<char>, Seq<u128>)| e.0)
}

/// The numbers that `account` has to its name: none for an account that the
/// list does not hold.
pub open spec fn ids_of(s: Seq<(Seq<char>, Seq<u128>)>, account: Seq<char>) -> Seq<u128> {
    if holders(s).contains(account) {
        s[position(holders(s), account)].1
    } else {
        Seq::empty()
    }
}

/// The numbers with `id` among them: at the end, where it is new.
pub open spec fn with_id(ids: Seq<u128>, id: u128) -> Seq<u128> {
    if ids.contains(id) {
        ids
    } else {
        ids.push(id)
    }
}

/// The list with `id` among the numbers of `account`.
pub open spec fn with_id_for(s: Seq<(Seq<char>, Seq<u128>)>, account: Seq<char>, id: u128) -> Seq<
    (Seq<char>, Seq<u128>),
> {
    if holders(s).contains(account) {
        let at = position(holders(s), account);
        s.update(at, (account, with_id(s[at].1, id)))
    } else {
        s.push((account, seq![id]))
    }
}

/// No account is in the list twice, and no account has a number twice.
pub open spec fn holdings_ok(s: Seq<(Seq<char>, Seq<u128>)>) -> bool {
    &&& holders(s).no_duplicates()
    &&& forall|i: int| 0 <= i < s.len() ==> (#[trigger] s[i]).1.no_duplicates()
}

/// The test for a number that is among `present`.
pub open spec fn is_among(present: Seq<u128>) -> spec_fn(u128) -> bool {
    |n: u128| present.contains(n)
}

/// The decimal texts of a list of numbers.
pub open spec fn decimals(ids: Seq<u128>) -> Seq<Seq<char>> {
    ids.map_values(|n: u128| decimal_text(n as nat))
}

/// The textual form of an item.
pub open spec fn item_to_view(item: MarketItemModel) -> MarketItemViewModel {
    match item.item_type {
        MarketItemTypeModel::Sale { price, seller_id, royalty } => MarketItemViewModel {
            id: decimal_text(item.id as nat),
            item_type: "sale"@,
            seller_id,
            price: Some(decimal_text(price as nat)),
            buyer_id: item.buyer_id,
            start_price: None,
            end_price: None,
            royalty: opt_decimal(royalty),
            start_time: None,
            end_time: None,
            created_at: decimal_text(item.created_at as nat),
            updated_at: decimal_text(item.updated_at as nat),
        },
        MarketItemTypeModel::Auction { start_price, seller_id, end_price, royalty, start_time, end_time } => MarketItemViewModel {
            id: decimal_text(item.id as nat),
            item_type: "auction"@,
            seller_id,
            price: None,
            buyer_id: item.buyer_id,
            start_price: Some(decimal_text(start_price as nat)),
            end_price: Some(decimal_text(end_price as nat)),
            royalty: opt_decimal(royalty),
            start_time: Some(decimal_text(start_time as nat)),
            end_time: Some(decimal_text(end_time as nat)),
            created_at: decimal_text(item.created_at as nat),
            updated_at: decimal_text(item.updated_at as nat),
        },
    }
}

/// The textual form of a sale.
pub open spec fn sale_to_view(sale: SaleModel) -> SaleViewModel {
    SaleViewModel {
        id: decimal_text(sale.id as nat),
        seller_id: sale.seller_id,
        price: decimal_text(sale.price as nat),
        royalty: opt_decimal(sale.royalty),
        created_at: decimal_text(sale.created_at as nat),
        updated_at: decimal_text(sale.updated_at as nat),
    }
}

/// The textual form of an auction.
pub open spec fn auction_to_view(a: AuctionModel) -> AuctionViewModel {
    AuctionViewModel {
        id: decimal_text(a.id as nat),
        seller_id: a.seller_id,
        start_price: decimal_text(a.start_price as nat),
        end_price: decimal_text(a.end_price as nat),
        royalty: opt_decimal(a.royalty),
        start_time: decimal_text(a.start_time as nat),
        end_time: decimal_text(a.end_time as nat),
        highest_bidder_id: a.highest_bidder_id,
        highest_bid: opt_decimal(a.highest_bid),
        created_at: decimal_text(a.created_at as nat),
        updated_at: decimal_text(a.updated_at as nat),
    }
}

/// The textual form of a bid.
pub open spec fn bid_to_view(b: BidModel) -> BidViewModel {
    BidViewModel {
        id: decimal_text(b.id as nat),
        bidder_id: b.bidder_id,
        auction_id: decimal_text(b.auction_id as nat),
        amount: decimal_text(b.amount as nat),
        created_at: decimal_text(b.created_at as nat),
    }
}

/// The marketplace as a mathematical value.
#[verifier::ext_equal]
pub struct MarketState {
    pub owner_id: Seq<char>,
    pub total_items: u128,
    pub total_sales: u128,
    pub total_auctions: u128,
    pub total_bids: u128,
    pub items: Seq<MarketItemModel>,
    pub sales: Seq<SaleModel>,
    pub auctions: Seq<AuctionModel>,
    pub bids: Seq<BidModel>,
    pub sales_by_seller: Seq<(Seq<char>, Seq<u128>)>,
    pub sales_by_buyer: Seq<(Seq<char>, Seq<u128>)>,
    pub auctions_by_seller: Seq<(Seq<char>, Seq<u128>)>,
    pub bids_by_bidder: Seq<(Seq<char>, Seq<u128>)>,
}

impl MarketState {
    /// The marketplace is well formed: no two items, sales, auctions or bids
    /// share a number, and no account is listed twice nor has a number twice.
    pub open spec fn wf(self) -> bool {
        &&& item_ids(self.items).no_duplicates()
        &&& sale_ids(self.sales).no_duplicates()
        &&& auction_ids(self.auctions).no_duplicates()
        &&& bid_ids(self.bids).no_duplicates()
        &&& holdings_ok(self.sales_by_seller)
        &&& holdings_ok(self.sales_by_buyer)
        &&& holdings_ok(self.auctions_by_seller)
        &&& holdings_ok(self.bids_by_bidder)
    }

    /// There is an item with the number `id`.
    pub open spec fn has_item(self, id: u128) -> bool {
        item_ids(self.items).contains(id)
    }

    /// The item with the number `id`.
    pub open spec fn item(self, id: u128) -> MarketItemModel {
        self.items[position(item_ids(self.items), id)]
    }

    /// There is a sale with the number `id`.
    pub open spec fn has_sale(self, id: u128) -> bool {
        sale_ids(self.sales).contains(id)
    }

    /// The sale with the number `id`.
    pub open spec fn sale(self, id: u128) -> SaleModel {
        self.sales[position(sale_ids(self.sales), id)]
    }

    /// There is an auction with the number `id`.
    pub open spec fn has_auction(self, id: u128) -> bool {
        auction_ids(self.auctions).contains(id)
    }

    /// The auction with the number `id`.
    pub open spec fn auction(self, id: u128) -> AuctionModel {
        self.auctions[position(auction_ids(self.auctions), id)]
    }

    /// There is a bid with the number `id`.
    pub open spec fn has_bid(self, id: u128) -> bool {
        bid_ids(self.bids).contains(id)
    }

    /// The bid with the number `id`.
    pub open spec fn bid(self, id: u128) -> BidModel {
        self.bids[position(bid_ids(self.bids), id)]
    }

    /// A new marketplace.
    pub open spec fn initial(owner_id: Seq<char>) -> MarketState {
        MarketState {
            owner_id,
            total_items: 0,
            total_sales: 0,
            total_auctions: 0,
            total_bids: 0,
            items: Seq::empty(),
            sales: Seq::empty(),
            auctions: Seq::empty(),
            bids: Seq::empty(),
            sales_by_seller: Seq::empty(),
            sales_by_buyer: Seq::empty(),
            auctions_by_seller: Seq::empty(),
            bids_by_bidder: Seq::empty(),
        }
    }

    /// The sale that `create_sale` makes: its number is one more than the number
    /// of items, and its times are `now` in milliseconds.
    pub open spec fn created_sale(self, seller: Seq<char>, price: u128, royalty: Option<u128>, now: u64) -> SaleModel {
        SaleModel {
            id: (self.total_items + 1) as u128,
            seller_id: seller,
            price,
            royalty,
            created_at: now / 1_000_000,
            updated_at: now / 1_000_000,
        }
    }

    /// The marketplace after `create_sale`: the sale stands under its number, in
    /// the place of an earlier sale of that number if there is one; the seller
    /// has the number to its name; and the sales are counted one more.
    pub open spec fn create_sale_next(self, sale: SaleModel) -> MarketState {
        MarketState {
            sales: if self.has_sale(sale.id) {
                self.sales.update(position(sale_ids(self.sales), sale.id), sale)
            } else {
                self.sales.push(sale)
            },
            sales_by_seller: with_id_for(self.sales_by_seller, sale.seller_id, sale.id),
            total_sales: (self.total_sales + 1) as u128,
            ..self
        }
    }

    /// The auction that `create_auction` makes.
    pub open spec fn created_auction(
        self,
        seller: Seq<char>,
        start_price: u128,
        end_price: u128,
        royalty: Option<u128>,
        start_time: u64,
        end_time: u64,
        now: u64,
    ) -> AuctionModel {
        AuctionModel {
            id: (self.total_items + 1) as u128,
            seller_id: seller,
            start_price,
            end_price,
            royalty,
            start_time,
            end_time,
            highest_bidder_id: None,
            highest_bid: None,
            created_at: now / 1_000_000,
            updated_at: now / 1_000_000,
        }
    }

    /// The marketplace after `create_auction`.
    pub open spec fn create_auction_next(self, auction: AuctionModel) -> MarketState {
        MarketState {
            auctions: if self.has_auction(auction.id) {
                self.auctions.update(position(auction_ids(self.auctions), auction.id), auction)
            } else {
                self.auctions.push(auction)
            },
            auctions_by_seller: with_id_for(self.auctions_by_seller, auction.seller_id, auction.id),
            total_auctions: (self.total_auctions + 1) as u128,
            ..self
        }
    }

    /// Why `buy_item` fails, if it does.
    pub open spec fn buy_error(self, item_id: u128, deposit: u128) -> Option<MarketError> {
        if !self.has_item(item_id) {
            Some(MarketError::ItemNotFound)
        } else {
            match self.item(item_id).item_type {
                MarketItemTypeModel::Sale { price, .. } => if deposit < price {
                    Some(MarketError::InsufficientDeposit)
                } else if price * MARKETPLACE_FEE > u128::MAX {
                    Some(MarketError::ArithmeticOverflow)
                } else {
                    None
                },
                MarketItemTypeModel::Auction { .. } => Some(MarketError::NotForSale),
            }
        }
    }

    /// The marketplace with `buyer` as the buyer of the item `item_id`, and the
    /// number to the name of the buyer.
    pub open spec fn with_buyer(self, item_id: u128, buyer: Seq<char>) -> MarketState {
        MarketState {
            items: self.items.update(
                position(item_ids(self.items), item_id),
                MarketItemModel { buyer_id: Some(buyer), ..self.item(item_id) },
            ),
            sales_by_buyer: with_id_for(self.sales_by_buyer, buyer, item_id),
            ..self
        }
    }

    /// The payments of a purchase of the item `item_id`, which is for sale.
    pub open spec fn buy_settlement(self, item_id: u128) -> SettlementModel {
        let price = self.item(item_id).item_type->Sale_price;
        SettlementModel {
            owner_id: self.owner_id,
            fee: fee_of(price) as u128,
            seller_id: self.item(item_id).item_type->Sale_seller_id,
            proceeds: (price - fee_of(price)) as u128,
        }
    }

    /// The highest bid on the auction `id` so far: 0 where there is none.
    pub open spec fn highest_bid(self, id: u128) -> u128 {
        match self.auction(id).highest_bid {
            Some(b) => b,
            None => 0,
        }
    }

    /// Why `place_bid` fails, if it does.
    pub open spec fn bid_error(self, auction_id: u128, deposit: u128, now: u64) -> Option<MarketError> {
        if !self.has_auction(auction_id) {
            Some(MarketError::AuctionNotFound)
        } else if now < self.auction(auction_id).start_time {
            Some(MarketError::AuctionNotStarted)
        } else if now > self.auction(auction_id).end_time {
            Some(MarketError::AuctionEnded)
        } else if deposit <= self.highest_bid(auction_id) {
            Some(MarketError::BidTooLow)
        } else if deposit * MARKETPLACE_FEE > u128::MAX || self.total_bids == u128::MAX {
            Some(MarketError::ArithmeticOverflow)
        } else {
            None
        }
    }

    /// The marketplace after `place_bid`: the bidder is the highest bidder with
    /// the deposit, has the number of the bid to its name, and the bids are
    /// counted one more.
    pub open spec fn bid_next(self, bidder: Seq<char>, auction_id: u128, deposit: u128) -> MarketState {
        MarketState {
            auctions: self.auctions.update(
                position(auction_ids(self.auctions), auction_id),
                AuctionModel {
                    highest_bidder_id: Some(bidder),
                    highest_bid: Some(deposit),
                    ..self.auction(auction_id)
                },
            ),
            bids_by_bidder: with_id_for(self.bids_by_bidder, bidder, (self.total_bids + 1) as u128),
            total_bids: (self.total_bids + 1) as u128,
            ..self
        }
    }

    /// The payments of a bid of `deposit` on the auction `auction_id`.
    pub open spec fn bid_settlement(self, auction_id: u128, deposit: u128) -> SettlementModel {
        SettlementModel {
            owner_id: self.owner_id,
            fee: fee_of(deposit) as u128,
            seller_id: self.auction(auction_id).seller_id,
            proceeds: (deposit - fee_of(deposit)) as u128,
        }
    }

    /// Why `end_auction` fails, if it does.
    pub open spec fn end_error(self, auction_id: u128, now: u64) -> Option<MarketError> {
        if !self.has_auction(auction_id) {
            Some(MarketError::AuctionNotFound)
        } else if now <= self.auction(auction_id).end_time {
            Some(MarketError::AuctionNotEnded)
        } else if self.auction(auction_id).highest_bidder_id is Some && !self.has_item(auction_id) {
            Some(MarketError::ItemNotFound)
        } else {
            None
        }
    }

    /// The marketplace after `end_auction`: the highest bidder, if there is one,
    /// is the buyer of the item of the auction's number; and the auction is gone.
    pub open spec fn end_next(self, auction_id: u128) -> MarketState {
        let sold = match self.auction(auction_id).highest_bidder_id {
            Some(bidder) => self.with_buyer(auction_id, bidder),
            None => self,
        };
        MarketState {
            auctions: swap_removed(self.auctions, position(auction_ids(self.auctions), auction_id)),
            ..sold
        }
    }

    /// The numbers of the sales and then of the auctions of `owner` that are
    /// there still, in decimal.
    pub open spec fn items_by_owner(self, owner: Seq<char>) -> Seq<Seq<char>> {
        decimals(ids_of(self.sales_by_seller, owner).filter(is_among(sale_ids(self.sales)))) + decimals(
            ids_of(self.auctions_by_seller, owner).filter(is_among(auction_ids(self.auctions))),
        )
    }
}

/// One more number to the name of an account keeps the list in order, and the
/// account has the number.
pub proof fn lemma_with_id_for(s: Seq<(Seq<char>, Seq<u128>)>, account: Seq<char>, id: u128)
    requires
        holdings_ok(s),
    ensures
        holdings_ok(with_id_for(s, account, id)),
        ids_of(with_id_for(s, account, id), account) == with_id(ids_of(s, account), id),
        ids_of(with_id_for(s, account, id), account).contains(id),
        forall|other: Seq<char>| other != account ==> ids_of(with_id_for(s, account, id), other) == ids_of(s, other),
{
    let t = with_id_for(s, account, id);
    let h = holders(s);
    if h.contains(account) {
        lemma_position_in_range(h, account);
        let at = position(h, account);
        assert(holders(t) =~= h);
        if !s[at].1.contains(id) {
            lemma_push_fresh(s[at].1, id);
            assert(s[at].1.push(id)[s[at].1.len() as int] == id);
        }
        assert forall|i: int| 0 <= i < t.len() implies (#[trigger] t[i]).1.no_duplicates() by {
            if i != at {
                assert(t[i] == s[i]);
            }
        }
        assert forall|other: Seq<char>| other != account implies ids_of(t, other) == ids_of(s, other) by {
            if h.contains(other) {
                lemma_position_in_range(h, other);
                assert(position(h, other) != at);
            }
        }
    } else {
        lemma_push_fresh(h, account);
        assert(holders(t) =~= h.push(account));
        assert(holders(t)[s.len() as int] == account);
        lemma_position(holders(t), account, s.len() as int);
        assert(seq![id][0] == id);
        assert(ids_of(t, account) =~= with_id(Seq::<u128>::empty(), id));
        assert forall|i: int| 0 <= i < t.len() implies (#[trigger] t[i]).1.no_duplicates() by {
            if i < s.len() {
                assert(t[i] == s[i]);
            }
        }
        assert forall|other: Seq<char>| other != account implies ids_of(t, other) == ids_of(s, other) by {
            if h.contains(other) {
                lemma_position_in_range(h, other);
                let j = position(h, other);
                assert(holders(t)[j] == other);
                lemma_position(holders(t), other, j);
            } else if holders(t).contains(other) {
                lemma_position_in_range(holders(t), other);
                let j = position(holders(t), other);
                assert(h[j] == other);
            }
        }
    }
}

/// A sale keeps the marketplace well formed.
pub proof fn lemma_create_sale_wf(s: MarketState, sale: SaleModel)
    requires
        s.wf(),
    ensures
        s.create_sale_next(sale).wf(),
        s.create_sale_next(sale).has_sale(sale.id),
        s.create_sale_next(sale).sale(sale.id) == sale,
{
    let t = s.create_sale_next(sale);
    let ids = sale_ids(s.sales);
    lemma_with_id_for(s.sales_by_seller, sale.seller_id, sale.id);
    if ids.contains(sale.id) {
        lemma_position_in_range(ids, sale.id);
        assert(sale_ids(t.sales) =~= ids);
    } else {
        lemma_push_fresh(ids, sale.id);
        assert(sale_ids(t.sales) =~= ids.push(sale.id));
        assert(sale_ids(t.sales)[ids.len() as int] == sale.id);
        lemma_position(sale_ids(t.sales), sale.id, ids.len() as int);
    }
}

/// An auction keeps the marketplace well formed.
pub proof fn lemma_create_auction_wf(s: MarketState, auction: AuctionModel)
    requires
        s.wf(),
    ensures
        s.create_auction_next(auction).wf(),
        s.create_auction_next(auction).has_auction(auction.id),
        s.create_auction_next(auction).auction(auction.id) == auction,
{
    let t = s.create_auction_next(auction);
    let ids = auction_ids(s.auctions);
    lemma_with_id_for(s.auctions_by_seller, auction.seller_id, auction.id);
    if ids.contains(auction.id) {
        lemma_position_in_range(ids, auction.id);
        assert(auction_ids(t.auctions) =~= ids);
    } else {
        lemma_push_fresh(ids, auction.id);
        assert(auction_ids(t.auctions) =~= ids.push(auction.id));
        assert(auction_ids(t.auctions)[ids.len() as int] == auction.id);
        lemma_position(auction_ids(t.auctions), auction.id, ids.len() as int);
    }
}

/// A buyer for an item keeps the marketplace well formed.
pub proof fn lemma_with_buyer_wf(s: MarketState, item_id: u128, buyer: Seq<char>)
    requires
        s.wf(),
        s.has_item(item_id),
    ensures
        s.with_buyer(item_id, buyer).wf(),
        s.with_buyer(item_id, buyer).auctions == s.auctions,
{
    let t = s.with_buyer(item_id, buyer);
    lemma_position_in_range(item_ids(s.items), item_id);
    assert(item_ids(t.items) =~= item_ids(s.items));
    lemma_with_id_for(s.sales_by_buyer, buyer, item_id);
}

/// A bid keeps the marketplace well formed.
pub proof fn lemma_bid_wf(s: MarketState, bidder: Seq<char>, auction_id: u128, deposit: u128)
    requires
        s.wf(),
        s.has_auction(auction_id),
    ensures
        s.bid_next(bidder, auction_id, deposit).wf(),
{
    let t = s.bid_next(bidder, auction_id, deposit);
    lemma_position_in_range(auction_ids(s.auctions), auction_id);
    assert(auction_ids(t.auctions) =~= auction_ids(s.auctions));
    lemma_with_id_for(s.bids_by_bidder, bidder, (s.total_bids + 1) as u128);
}

/// The end of an auction keeps the marketplace well formed, and the auction is gone.
pub proof fn lemma_end_wf(s: MarketState, auction_id: u128)
    requires
        s.wf(),
        s.has_auction(auction_id),
        s.auction(auction_id).highest_bidder_id is Some ==> s.has_item(auction_id),
    ensures
        s.end_next(auction_id).wf(),
        !s.end_next(auction_id).has_auction(auction_id),
{
    let t = s.end_next(auction_id);
    let ids = auction_ids(s.auctions);
    lemma_position_in_range(ids, auction_id);
    let at = position(ids, auction_id);
    lemma_swap_removed(ids, at);
    assert(auction_ids(t.auctions) =~= swap_removed(ids, at));
    match s.auction(auction_id).highest_bidder_id {
        Some(bidder) => {
            lemma_with_buyer_wf(s, auction_id, bidder);
        },
        None => {},
    }
}

/// The fee is no more than the amount it is taken of.
pub proof fn lemma_fee_bound(amount: u128)
    ensures
        fee_of(amount) <= amount,
{
    assert((amount * 250) / 10000 <= amount) by (nonlinear_arith);
}

} // verus!
