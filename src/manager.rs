//! Position lifecycle: open, reprice, close, list.
use crate::models::{pnl_of, pnl_percentage_of, PositionItem, Timestamp};
use crate::records::{Record, StoreError};
use crate::store::{
    is_position_row_for, lemma_select_satisfies, open_position, position_attributes, position_read_from, position_readable,
    records_view, select, DynamoDBStore, PutItem,
};
use vstd::prelude::*;
use vstd::string::*;

verus! {

/// Why a position operation failed.
pub enum PositionError {
    /// The owner has no position with that id.
    NotFound,
    /// The stored position could not be read.
    Corrupt(StoreError),
}

/// Lifecycle operations over an owner's positions.
pub struct PositionManager {
    pub store: DynamoDBStore,
}

impl PositionManager {
    pub fn new(store: DynamoDBStore) -> (r: PositionManager)
        ensures
            r.store == store,
    {
        PositionManager { store }
    }

    /// A new open position at `entry_price`, and the write that stores it.
    pub fn open_position(
        &self,
        user_id: &str,
        symbol: &str,
        entry_price: u64,
        quantity: u64,
        side: &str,
    ) -> (r: (PositionItem, PutItem))
        ensures
            r.0.user_id@ == user_id@,
            r.0.symbol@ == symbol@,
            r.0.entry_price == entry_price,
            r.0.current_price == entry_price,
            r.0.quantity == quantity,
            r.0.side@ == side@,
            r.0.status@ == "open"@,
            r.0.pnl is None,
            r.1.table_name@ == self.store.table_name@,
            r.1.item@ == position_attributes(r.0),
    {
        let position = PositionItem::new(
            String::from_str(user_id),
            String::from_str(symbol),
            entry_price,
            quantity,
            String::from_str(side),
        );
        let put = self.store.put_position(&position);
        (position, put)
    }

    fn find(&self, items: &Vec<Record>, position_id: &str) -> (r: Result<PositionItem, PositionError>)
        ensures
            ({
                let sel = select(records_view(items@), |a| is_position_row_for(a, position_id@));
                &&& sel.len() == 0 ==> r is Err && r->Err_0 is NotFound
                &&& sel.len() > 0 ==> (r is Ok <==> position_readable(sel[0]))
                &&& sel.len() > 0 && r is Err ==> r->Err_0 is Corrupt
                &&& r is Ok ==> sel.len() > 0 && position_read_from(r->Ok_0, sel[0])
            }),
    {
        match self.store.get_position(items, position_id) {
            Ok(Some(p)) => Ok(p),
            Ok(None) => Err(PositionError::NotFound),
            Err(e) => Err(PositionError::Corrupt(e)),
        }
    }

    /// Reprices the owner's position `position_id` at `current_price`, stamped
    /// `at`, recomputing profit and loss; gives the position and its write.
    pub fn update_position_price(
        &self,
        items: &Vec<Record>,
        position_id: &str,
        current_price: u64,
        at: Timestamp,
    ) -> (r: Result<(PositionItem, PutItem), PositionError>)
        ensures
            ({
                let sel = select(records_view(items@), |a| is_position_row_for(a, position_id@));
                &&& sel.len() == 0 ==> r is Err && r->Err_0 is NotFound
                &&& sel.len() > 0 ==> (r is Ok <==> position_readable(sel[0]))
                &&& r is Ok ==> {
                    let p = r->Ok_0.0;
                    &&& p.current_price == current_price
                    &&& p.position_id@ == position_id@
                    &&& p.pnl is Some
                    &&& p.pnl->0 == pnl_of(p.side@, p.entry_price as int, current_price as int, p.quantity as int)
                    &&& p.entry_price > 0 ==> p.pnl_percentage is Some && p.pnl_percentage->0
                        == pnl_percentage_of(p.side@, p.entry_price as int, current_price as int)
                    &&& r->Ok_0.1.item@ == position_attributes(p)
                }
            }),
    {
        proof {
            reveal_strlit("position_id");
        }
        let mut position = self.find(items, position_id)?;
        proof {
            lemma_select_satisfies(
                records_view(items@),
                |a| is_position_row_for(a, position_id@),
            );
        }
        position.calculate_pnl_at(current_price, at);
        let put = self.store.put_position(&position);
        Ok((position, put))
    }

    /// Closes the owner's position `position_id` at `close_price`, stamped
    /// `at`: profit and loss are final and the status is `closed`. Gives the
    /// realized profit or loss (fixed-point) and the write.
    pub fn close_position(
        &self,
        items: &Vec<Record>,
        position_id: &str,
        close_price: u64,
        at: Timestamp,
    ) -> (r: Result<(i128, PutItem), PositionError>)
        ensures
            ({
                let sel = select(records_view(items@), |a| is_position_row_for(a, position_id@));
                &&& sel.len() == 0 ==> r is Err && r->Err_0 is NotFound
                &&& sel.len() > 0 ==> (r is Ok <==> position_readable(sel[0]))
                &&& r is Ok ==> exists|p: PositionItem, q: PositionItem|
                    {
                        &&& position_read_from(p, sel[0])
                        &&& r->Ok_0.0 == pnl_of(
                            p.side@,
                            p.entry_price as int,
                            close_price as int,
                            p.quantity as int,
                        )
                        &&& q.status@ == "closed"@
                        &&& q.current_price == close_price
                        &&& q.pnl == Some(r->Ok_0.0)
                        &&& q.position_id == p.position_id
                        &&& q.user_id == p.user_id
                        &&& q.entry_price == p.entry_price
                        &&& q.quantity == p.quantity
                        &&& q.side == p.side
                        &&& q.entry_time == p.entry_time
                        &&& r->Ok_0.1.item@ == position_attributes(q)
                    }
            }),
    {
        proof {
            reveal_strlit("closed");
        }
        let mut position = self.find(items, position_id)?;
        let ghost stored = position;
        position.calculate_pnl_at(close_price, at);
        position.status = String::from_str("closed");
        let pnl = match position.pnl {
            Some(v) => v,
            None => 0,
        };
        let put = self.store.put_position(&position);
        proof {
            let sel = select(records_view(items@), |a| is_position_row_for(a, position_id@));
            assert(position_read_from(stored, sel[0]));
            assert(position.pnl == Some(pnl));
        }
        Ok((pnl, put))
    }

    /// The owner's open positions, read from the owner's items.
    pub fn get_open_positions(&self, items: &Vec<Record>) -> (r: Result<Vec<PositionItem>, StoreError>)
        ensures
            ({
                let sel = select(records_view(items@), |a| open_position(a));
                &&& r is Ok <==> forall|k: int| 0 <= k < sel.len() ==> position_readable(#[trigger] sel[k])
                &&& r is Ok ==> r->Ok_0@.len() == sel.len() && forall|k: int|
                    0 <= k < sel.len() ==> position_read_from(#[trigger] r->Ok_0@[k], sel[k])
            }),
    {
        self.store.query_open_positions(items)
    }
}

} // verus!
