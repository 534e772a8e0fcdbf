use sfi_client::create_item::{CreateItem, Effect, Msg, Props};
use sfi_client::item_card::{ItemCard, Msg as CardMsg, Props as CardProps};
use sfi_client::messages::{DataAgentRequest, DataAgentResponse};
use sfi_client::model::Item;
use sfi_client::route::AppRoute;

#[test]
fn create_item_form_flow() {
    let (mut form, req) = CreateItem::create(Props { inventory_uuid: 5 });
    assert_eq!(req, DataAgentRequest::GetInventory(5));
    assert!(!form.is_busy);
    assert_eq!(form.update(Msg::UpdateName("Drill".to_string())), (false, Effect::Nothing));
    assert_eq!(form.update(Msg::UpdateEan("".to_string())), (true, Effect::Nothing));
    assert_eq!(form.ean, None);
    form.update(Msg::UpdateEan("123".to_string()));
    assert_eq!(form.ean, Some("123".to_string()));
    let (render, effect) = form.update(Msg::Confirm);
    assert!(render);
    assert!(form.is_busy);
    assert_eq!(
        effect,
        Effect::Send(DataAgentRequest::CreateItem(5, "Drill".to_string(), Some("123".to_string())))
    );
    let (_, effect) = form.update(Msg::DataAgentResponse(DataAgentResponse::NewItemUuid(9)));
    assert_eq!(effect, Effect::ChangeRoute(AppRoute::Items(5)));
    assert!(!form.is_busy);
    assert_eq!(form.update(Msg::DataAgentResponse(DataAgentResponse::UpdatedItem)), (false, Effect::Nothing));
    form.update(Msg::DataAgentResponse(DataAgentResponse::InvalidInventoryUuid));
    assert!(form.inventory.is_none());
    let (_, effect) = form.update(Msg::Cancel);
    assert_eq!(effect, Effect::ChangeRoute(AppRoute::Inventories));
}

#[test]
fn item_card_links_and_updates() {
    let item = Item { uuid: 3, inventory_uuid: 8, name: "x".to_string(), ean: None };
    let mut card = ItemCard::create(CardProps { item });
    assert_eq!(card.links(true), Some((AppRoute::Units(8, 3), AppRoute::UpdateItem(8, 3))));
    assert_eq!(card.links(false), None);
    assert!(!card.update(CardMsg::OpenItem));
    assert!(card.update(CardMsg::EditItem));
}
