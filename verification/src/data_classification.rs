//! Classification vocabulary shared by the taint subsystem and the taxonomy.

use vstd::prelude::*;

verus! {

/// How sensitive a piece of data is, from least to most.
#[derive(Debug, Clone, Copy, PartialEq, Eq, Structural, PartialOrd, Ord, Hash)]
pub enum SensitivityLevel {
    Public,
    Internal,
    Confidential,
    Restricted,
}

/// Position of a level in the order `Public < Internal < Confidential < Restricted`.
pub open spec fn rank(level: SensitivityLevel) -> int {
    match level {
        SensitivityLevel::Public => 0,
        SensitivityLevel::Internal => 1,
        SensitivityLevel::Confidential => 2,
        SensitivityLevel::Restricted => 3,
    }
}

/// The level at a given rank; ranks outside `0..=3` clamp to the nearest level.
pub open spec fn level_of_rank(r: int) -> SensitivityLevel {
    if r <= 0 {
        SensitivityLevel::Public
    } else if r == 1 {
        SensitivityLevel::Internal
    } else if r == 2 {
        SensitivityLevel::Confidential
    } else {
        SensitivityLevel::Restricted
    }
}

/// The higher of two levels.
pub open spec fn max_level(a: SensitivityLevel, b: SensitivityLevel) -> SensitivityLevel {
    if rank(a) >= rank(b) {
        a
    } else {
        b
    }
}

pub proof fn lemma_rank_roundtrip(level: SensitivityLevel)
    ensures
        level_of_rank(rank(level)) == level,
        0 <= rank(level) <= 3,
{
}

impl SensitivityLevel {
    /// Numeric position of the level in the sensitivity order.
    pub fn rank_of(&self) -> (r: u8)
        ensures
            r as int == rank(*self),
    {
        match self {
            SensitivityLevel::Public => 0,
            SensitivityLevel::Internal => 1,
            SensitivityLevel::Confidential => 2,
            SensitivityLevel::Restricted => 3,
        }
    }

    /// The higher of the two levels.
    pub fn max_with(self, other: SensitivityLevel) -> (r: SensitivityLevel)
        ensures
            r == max_level(self, other),
    {
        if self.rank_of() >= other.rank_of() {
            self
        } else {
            other
        }
    }

    /// Whether `self` is at most as sensitive as `other`.
    pub fn at_most(&self, other: &SensitivityLevel) -> (r: bool)
        ensures
            r == (rank(*self) <= rank(*other)),
    {
        self.rank_of() <= other.rank_of()
    }
}

/// The kind of data a finding belongs to.
#[derive(Debug, Clone, Copy, PartialEq, Eq, Structural, PartialOrd, Ord, Hash)]
pub enum DataCategory {
    Pii,
    Credentials,
    Financial,
    Healthcare,
    Internal,
    Public,
}

/// What a detector recognized.
#[derive(Debug, Clone, Copy, PartialEq, Eq, Structural, Hash)]
pub enum DatumType {
    Email,
    SocialSecurityNumber,
    CreditCardNumber,
    PhoneNumber,
    ApiKey,
    Password,
    InternalIpAddress,
}

pub open spec fn datum_category(t: DatumType) -> DataCategory {
    match t {
        DatumType::Email => DataCategory::Pii,
        DatumType::SocialSecurityNumber => DataCategory::Pii,
        DatumType::CreditCardNumber => DataCategory::Financial,
        DatumType::PhoneNumber => DataCategory::Pii,
        DatumType::ApiKey => DataCategory::Credentials,
        DatumType::Password => DataCategory::Credentials,
        DatumType::InternalIpAddress => DataCategory::Internal,
    }
}

pub open spec fn datum_sensitivity(t: DatumType) -> SensitivityLevel {
    match t {
        DatumType::Email => SensitivityLevel::Confidential,
        DatumType::SocialSecurityNumber => SensitivityLevel::Restricted,
        DatumType::CreditCardNumber => SensitivityLevel::Restricted,
        DatumType::PhoneNumber => SensitivityLevel::Confidential,
        DatumType::ApiKey => SensitivityLevel::Restricted,
        DatumType::Password => SensitivityLevel::Restricted,
        DatumType::InternalIpAddress => SensitivityLevel::Internal,
    }
}

impl DatumType {
    /// The category a datum of this type belongs to.
    pub fn category(&self) -> (c: DataCategory)
        ensures
            c == datum_category(*self),
    {
        match self {
            DatumType::Email => DataCategory::Pii,
            DatumType::SocialSecurityNumber => DataCategory::Pii,
            DatumType::CreditCardNumber => DataCategory::Financial,
            DatumType::PhoneNumber => DataCategory::Pii,
            DatumType::ApiKey => DataCategory::Credentials,
            DatumType::Password => DataCategory::Credentials,
            DatumType::InternalIpAddress => DataCategory::Internal,
        }
    }

    /// Sensitivity a finding of this type carries unless something says more.
    pub fn default_sensitivity(&self) -> (s: SensitivityLevel)
        ensures
            s == datum_sensitivity(*self),
    {
        match self {
            DatumType::Email => SensitivityLevel::Confidential,
            DatumType::SocialSecurityNumber => SensitivityLevel::Restricted,
            DatumType::CreditCardNumber => SensitivityLevel::Restricted,
            DatumType::PhoneNumber => SensitivityLevel::Confidential,
            DatumType::ApiKey => SensitivityLevel::Restricted,
            DatumType::Password => SensitivityLevel::Restricted,
            DatumType::InternalIpAddress => SensitivityLevel::Internal,
        }
    }
}

/// One finding of a detector: what it is, where it sits, what it matched.
#[derive(Debug)]
pub struct ClassifiedDatum {
    pub datum_type: DatumType,
    /// Byte span of the match in the scanned text.
    pub position: (usize, usize),
    pub matched_text: String,
}

impl ClassifiedDatum {
    pub fn category(&self) -> (c: DataCategory)
        ensures
            c == datum_category(self.datum_type),
    {
        self.datum_type.category()
    }

    pub fn sensitivity(&self) -> (s: SensitivityLevel)
        ensures
            s == datum_sensitivity(self.datum_type),
    {
        self.datum_type.default_sensitivity()
    }
}

/// A set of data categories. Iteration follows the category declaration order.
#[derive(Debug, Clone, Copy, PartialEq, Eq, Structural, Hash, Default)]
pub struct CategorySet {
    pub pii: bool,
    pub credentials: bool,
    pub financial: bool,
    pub healthcare: bool,
    pub internal: bool,
    pub public: bool,
}

impl CategorySet {
    pub open spec fn has(self, c: DataCategory) -> bool {
        match c {
            DataCategory::Pii => self.pii,
            DataCategory::Credentials => self.credentials,
            DataCategory::Financial => self.financial,
            DataCategory::Healthcare => self.healthcare,
            DataCategory::Internal => self.internal,
            DataCategory::Public => self.public,
        }
    }
}

impl View for CategorySet {
    type V = Set<DataCategory>;

    open spec fn view(&self) -> Set<DataCategory> {
        Set::new(|c: DataCategory| self.has(c))
    }
}

/// Every category, in declaration order.
pub open spec fn all_categories() -> Seq<DataCategory> {
    seq![
        DataCategory::Pii,
        DataCategory::Credentials,
        DataCategory::Financial,
        DataCategory::Healthcare,
        DataCategory::Internal,
        DataCategory::Public,
    ]
}

impl CategorySet {
    pub fn new() -> (s: CategorySet)
        ensures
            s@ == Set::<DataCategory>::empty(),
    {
        let s = CategorySet {
            pii: false,
            credentials: false,
            financial: false,
            healthcare: false,
            internal: false,
            public: false,
        };
        assert(s@ =~= Set::<DataCategory>::empty());
        s
    }

    pub fn contains(&self, c: &DataCategory) -> (r: bool)
        ensures
            r == self@.contains(*c),
    {
        match c {
            DataCategory::Pii => self.pii,
            DataCategory::Credentials => self.credentials,
            DataCategory::Financial => self.financial,
            DataCategory::Healthcare => self.healthcare,
            DataCategory::Internal => self.internal,
            DataCategory::Public => self.public,
        }
    }

    pub fn is_empty(&self) -> (r: bool)
        ensures
            r == (self@ == Set::<DataCategory>::empty()),
    {
        let r = !(self.pii || self.credentials || self.financial || self.healthcare
            || self.internal || self.public);
        if !r {
            if self.pii {
                assert(self@.contains(DataCategory::Pii));
            } else if self.credentials {
                assert(self@.contains(DataCategory::Credentials));
            } else if self.financial {
                assert(self@.contains(DataCategory::Financial));
            } else if self.healthcare {
                assert(self@.contains(DataCategory::Healthcare));
            } else if self.internal {
                assert(self@.contains(DataCategory::Internal));
            } else {
                assert(self@.contains(DataCategory::Public));
            }
        } else {
            assert(self@ =~= Set::<DataCategory>::empty());
        }
        r
    }

    pub fn insert(&mut self, c: DataCategory)
        ensures
            final(self)@ == old(self)@.insert(c),
    {
        match c {
            DataCategory::Pii => self.pii = true,
            DataCategory::Credentials => self.credentials = true,
            DataCategory::Financial => self.financial = true,
            DataCategory::Healthcare => self.healthcare = true,
            DataCategory::Internal => self.internal = true,
            DataCategory::Public => self.public = true,
        }
        assert(self@ =~= old(self)@.insert(c));
    }

    /// Add every category of `other`.
    pub fn extend(&mut self, other: &CategorySet)
        ensures
            final(self)@ == old(self)@.union(other@),
    {
        self.pii = self.pii || other.pii;
        self.credentials = self.credentials || other.credentials;
        self.financial = self.financial || other.financial;
        self.healthcare = self.healthcare || other.healthcare;
        self.internal = self.internal || other.internal;
        self.public = self.public || other.public;
        assert(self@ =~= old(self)@.union(other@));
    }

    /// The categories of the set, in declaration order.
    pub fn to_vec(&self) -> (v: Vec<DataCategory>)
        ensures
            v@ == all_categories().filter(|c: DataCategory| self.has(c)),
    {
        let mut v: Vec<DataCategory> = Vec::new();
        if self.pii {
            v.push(DataCategory::Pii);
        }
        if self.credentials {
            v.push(DataCategory::Credentials);
        }
        if self.financial {
            v.push(DataCategory::Financial);
        }
        if self.healthcare {
            v.push(DataCategory::Healthcare);
        }
        if self.internal {
            v.push(DataCategory::Internal);
        }
        if self.public {
            v.push(DataCategory::Public);
        }
        proof {
            let f = |c: DataCategory| self.has(c);
            let all = all_categories();
            reveal_with_fuel(Seq::filter, 7);
            assert(all.take(6) =~= all);
            assert(v@ =~= all.filter(f));
        }
        v
    }
}

} // verus!
