use vstd::prelude::*;

verus! {

/// A driver, named by display name or by customer id.
pub enum DriverId {
    Name(String),
    CustId(i64),
}

impl DriverId {
    /// The customer id where one is given, else the name; `None` when
    /// neither is.
    pub fn from_params(driver_name: Option<String>, cust_id: Option<i64>) -> (r: Option<DriverId>)
        ensures
            r is None <==> driver_name is None && cust_id is None,
            cust_id matches Some(c) ==> (r matches Some(DriverId::CustId(x)) && x == c),
            cust_id is None && driver_name is Some ==> (r matches Some(DriverId::Name(n)) && n@ == driver_name.unwrap()@),
    {
        if let Some(cust_id) = cust_id {
            return Some(DriverId::CustId(cust_id));
        }
        if let Some(driver_name) = driver_name {
            return Some(DriverId::Name(driver_name));
        }
        None
    }
}

} // verus!
