use vstd::prelude::*;

verus! {

/// The account details shown by `status`.
#[derive(Debug)]
pub struct AzureAccount {
    /// The friendly subscription name.
    pub name: String,
    /// The active subscription identifier.
    pub subscription_id: String,
    /// The Azure user or service principal name.
    pub user: String,
}

/// The resource group fields that inventory reports need.
#[derive(Debug)]
pub struct AzureResourceGroupReportItem {
    /// The resource group name exactly as Azure returns it.
    pub name: String,
    /// The Azure region of the group.
    pub location: String,
}

/// One tag of a resource.
#[derive(Debug)]
pub struct ResourceTag {
    pub key: String,
    pub value: String,
}

/// The SKU fields that inventory reports need.
#[derive(Debug)]
pub struct AzureResourceSkuReportItem {
    /// The optional SKU name.
    pub name: Option<String>,
}

/// The resource fields that inventory reports need.
#[derive(Debug)]
pub struct AzureResourceReportItem {
    /// The resource name.
    pub name: String,
    /// The Azure resource type (JSON field `type`).
    pub resource_type: String,
    /// The location, empty when Azure sent none.
    pub location: String,
    /// The optional resource kind.
    pub kind: Option<String>,
    /// The optional tags, ordered by key as a sorted map holds them.
    pub tags: Option<Vec<ResourceTag>>,
    /// The optional SKU details.
    pub sku: Option<AzureResourceSkuReportItem>,
}

/// One resource group with the resources that belong to it.
#[derive(Debug)]
pub struct AzureInventoryGroup {
    /// The group metadata that becomes the section heading.
    pub resource_group: AzureResourceGroupReportItem,
    /// The group's resources in display order.
    pub resources: Vec<AzureResourceReportItem>,
}

} // verus!
