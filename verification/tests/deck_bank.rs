use exercises::bank::{Account, Bank, Debit};
use exercises::deck::Deck;

#[test]
fn deck_new_has_52_cards_in_order() {
    let deck = Deck::new();
    assert_eq!(deck.cards.len(), 52);
    assert_eq!(deck.cards[0], "Ace of Hearts");
    assert_eq!(deck.cards[1], "Two of Hearts");
    assert_eq!(deck.cards[12], "King of Hearts");
    assert_eq!(deck.cards[13], "Ace of Diamonds");
    assert_eq!(deck.cards[26], "Ace of Clubs");
    assert_eq!(deck.cards[36], "Jack of Clubs");
    assert_eq!(deck.cards[50], "Queen of Spades");
    assert_eq!(deck.cards[51], "King of Spades");
}

#[test]
fn deck_new_has_no_card_twice() {
    let mut cards = Deck::new().cards;
    cards.sort();
    cards.dedup();
    assert_eq!(cards.len(), 52);
}

#[test]
fn deck_deal_takes_from_the_end() {
    let mut deck = Deck::new();
    let dealt = deck.deal(3);
    assert_eq!(dealt, vec!["Jack of Spades", "Queen of Spades", "King of Spades"]);
    assert_eq!(deck.cards.len(), 49);
    assert_eq!(deck.cards[48], "Ten of Spades");
}

#[test]
fn deck_deal_more_than_there_are() {
    let mut deck = Deck::new();
    let full = Deck::new().cards;
    let dealt = deck.deal(60);
    assert_eq!(dealt, full);
    assert!(deck.cards.is_empty());
    assert!(deck.deal(1).is_empty());
}

#[test]
fn deck_deal_nothing() {
    let mut deck = Deck::new();
    assert!(deck.deal(0).is_empty());
    assert_eq!(deck.cards.len(), 52);
}

#[test]
fn deck_shuffle_keeps_the_cards_and_moves_them() {
    let mut deck = Deck::new();
    deck.shuffle();
    assert_eq!(deck.cards.len(), 52);
    let mut shuffled = deck.cards.clone();
    let mut fresh = Deck::new().cards;
    assert_ne!(shuffled, fresh);
    shuffled.sort();
    fresh.sort();
    assert_eq!(shuffled, fresh);
}

#[test]
fn account_new_starts_at_zero() {
    let account = Account::new(1, String::from("TestName"));
    assert_eq!(account.id, 1);
    assert_eq!(account.holder, "TestName");
    assert_eq!(account.balance, 0);
    assert_eq!(account.account_summary(), "TestName has a balance of 0");
}

#[test]
fn account_credit_and_debit() {
    let mut account = Account::new(1, String::from("TestName"));
    assert_eq!(account.credit_funds(10), 10);
    assert_eq!(account.debit_funds(5), 5);
    assert_eq!(account.debit_funds(15), 5);
    assert_eq!(account.account_summary(), "TestName has a balance of 5");
}

#[test]
fn account_credit_ignores_negative_deposit() {
    let mut account = Account::new(2, String::from("N"));
    account.credit_funds(100);
    assert_eq!(account.credit_funds(-1), 100);
    assert_eq!(account.credit_funds(0), 100);
}

#[test]
fn account_debit_outcomes() {
    let mut account = Account::new(3, String::from("N"));
    account.credit_funds(50);
    assert_eq!(account.debit_outcome(49), Debit::Withdrawn);
    assert_eq!(account.debit_outcome(0), Debit::Withdrawn);
    assert_eq!(account.debit_outcome(50), Debit::Ignored);
    assert_eq!(account.debit_outcome(-5), Debit::Ignored);
    assert_eq!(account.debit_outcome(51), Debit::InsufficientFunds);
    assert_eq!(account.debit_funds(50), 50);
    assert_eq!(account.debit_funds(-5), 50);
    assert_eq!(account.debit_funds(51), 50);
    assert_eq!(account.debit_funds(49), 1);
}

#[test]
fn account_summary_of_negative_balance() {
    let account = Account { id: 9, balance: -1023, holder: String::from("Owing") };
    assert_eq!(account.account_summary(), "Owing has a balance of -1023");
    let lowest = Account { id: 9, balance: isize::MIN, holder: String::new() };
    assert_eq!(lowest.account_summary(), format!(" has a balance of {}", isize::MIN));
    assert_eq!(lowest.debit_outcome(isize::MIN), Debit::Ignored);
}

#[test]
fn bank_sums_and_summaries() {
    let mut bank = Bank::new();
    assert_eq!(bank.sum_accounts(), 0);
    assert!(bank.accounts_summary().is_empty());
    let mut account = Account::new(1, String::from("TestName"));
    account.credit_funds(10);
    account.debit_funds(5);
    bank.add_account(account);
    account = Account::new(2, String::from("Jeffy"));
    account.credit_funds(100);
    bank.add_account(account);
    bank.accounts[1].credit_funds(15);
    assert_eq!(bank.sum_accounts(), 120);
    assert_eq!(bank.sum_accounts_checked(), Some(120));
    assert_eq!(
        bank.accounts_summary(),
        vec!["TestName has a balance of 5", "Jeffy has a balance of 115"]
    );
}

#[test]
fn bank_checked_sum_reports_overflow() {
    let mut bank = Bank::new();
    bank.add_account(Account { id: 1, balance: isize::MAX, holder: String::from("a") });
    bank.add_account(Account { id: 2, balance: 1, holder: String::from("b") });
    bank.add_account(Account { id: 3, balance: -1, holder: String::from("c") });
    assert_eq!(bank.sum_accounts_checked(), None);
    let mut fits = Bank::new();
    fits.add_account(Account { id: 1, balance: isize::MAX, holder: String::from("a") });
    fits.add_account(Account { id: 3, balance: -1, holder: String::from("c") });
    fits.add_account(Account { id: 2, balance: 1, holder: String::from("b") });
    assert_eq!(fits.sum_accounts_checked(), Some(isize::MAX));
    assert_eq!(fits.sum_accounts(), isize::MAX);
}
