//! Supplier management: the supplier model and its qualification
//! lifecycle.

use vstd::prelude::*;

verus! {

/// Supplier qualification status.
#[derive(Debug, Clone, Copy, PartialEq, Eq, Structural)]
pub enum SupplierStatus {
    Pending,
    Qualified,
    Disqualified,
}

/// Supplier entity.
#[derive(Debug)]
pub struct Supplier {
    /// Unique identifier.
    pub id: String,
    /// Supplier name.
    pub name: String,
    /// Contact information, if known.
    pub contact_info: Option<String>,
    /// Qualification status.
    pub status: SupplierStatus,
    /// Day the supplier was qualified, as days since the Unix epoch.
    pub qualification_date: Option<i64>,
    /// Day the qualification expires, as days since the Unix epoch.
    pub qualification_expiry_date: Option<i64>,
    /// Who approved the qualification.
    pub approved_by: Option<String>,
    /// Creation instant, seconds since the Unix epoch.
    pub created_at: i64,
    /// Last update instant, seconds since the Unix epoch.
    pub updated_at: i64,
}

/// Number of suppliers carrying a status.
pub open spec fn count_supplier_status(s: Seq<Supplier>, st: SupplierStatus) -> int
    decreases s.len(),
{
    if s.len() == 0 {
        0
    } else {
        count_supplier_status(s.drop_last(), st) + (if s.last().status == st {
            1int
        } else {
            0int
        })
    }
}

/// Count the suppliers carrying a status.
pub fn count_suppliers_with_status(suppliers: &[Supplier], st: SupplierStatus) -> (r: usize)
    ensures
        r as int == count_supplier_status(suppliers@, st),
        r <= suppliers@.len(),
{
    let mut r: usize = 0;
    let mut i: usize = 0;
    proof {
        assert(suppliers@.take(0) =~= Seq::<Supplier>::empty());
    }
    while i < suppliers.len()
        invariant
            0 <= i <= suppliers@.len(),
            r as int == count_supplier_status(suppliers@.take(i as int), st),
            r <= i,
        decreases suppliers@.len() - i,
    {
        if suppliers[i].status == st {
            r += 1;
        }
        proof {
            let t = suppliers@.take(i + 1 as int);
            assert(t.drop_last() =~= suppliers@.take(i as int));
            assert(t.last() == suppliers@[i as int]);
        }
        i += 1;
    }
    proof {
        assert(suppliers@.take(suppliers@.len() as int) =~= suppliers@);
    }
    r
}

} // verus!
