//! The quotes that the server releases for a proof of work.

use vstd::prelude::*;

verus! {

/// The number of quotes in the catalogue.
pub const QUOTES_QUANTITY: usize = 10;

/// The quote at `index` of the catalogue, as a sequence of characters.
pub open spec fn quote_text(index: int) -> Seq<char> {
    if index == 0 {
        "You create your own opportunities. Success doesn`t just come and find you-you have to go out and get it."@
    } else if index == 1 {
        "Never break your promises. Keep every promise; it makes you credible."@
    } else if index == 2 {
        "You are never as stuck as you think you are. Success is not final, and failure isn`t fatal."@
    } else if index == 3 {
        "Happiness is a choice. For every minute you are angry, you lose 60 seconds of your own happiness."@
    } else if index == 4 {
        "Habits develop into character. Character is the result of our mental attitude and the way we spend our time."@
    } else if index == 5 {
        "Be happy with who you are. Being happy doesn`t mean everything is perfect but that you have decided to look beyond the imperfections."@
    } else if index == 6 {
        "Don`t seek happiness-create it. You don`t need life to go your way to be happy."@
    } else if index == 7 {
        "If you want to be happy, stop complaining. If you want happiness, stop complaining about how your life isn`t what you want and make it into what you do want."@
    } else if index == 8 {
        "Asking for help is a sign of strength. Don`t let your fear of being judged stop you from asking for help when you need it. Sometimes asking for help is the bravest move you can make. You don`t have to go it alone."@
    } else {
        "Replace every negative thought with a positive one. A positive mind is stronger than a negative thought."@
    }
}

/// The number of characters of the longest quote.
pub const MAXIMUM_QUOTE_LENGTH: usize = 213;

/// No quote of the catalogue is longer than `MAXIMUM_QUOTE_LENGTH`.
pub proof fn lemma_quote_length(index: int)
    ensures
        quote_text(index).len() <= MAXIMUM_QUOTE_LENGTH,
{
    reveal_strlit("You create your own opportunities. Success doesn`t just come and find you-you have to go out and get it.");
    reveal_strlit("Never break your promises. Keep every promise; it makes you credible.");
    reveal_strlit("You are never as stuck as you think you are. Success is not final, and failure isn`t fatal.");
    reveal_strlit("Happiness is a choice. For every minute you are angry, you lose 60 seconds of your own happiness.");
    reveal_strlit("Habits develop into character. Character is the result of our mental attitude and the way we spend our time.");
    reveal_strlit("Be happy with who you are. Being happy doesn`t mean everything is perfect but that you have decided to look beyond the imperfections.");
    reveal_strlit("Don`t seek happiness-create it. You don`t need life to go your way to be happy.");
    reveal_strlit("If you want to be happy, stop complaining. If you want happiness, stop complaining about how your life isn`t what you want and make it into what you do want.");
    reveal_strlit("Asking for help is a sign of strength. Don`t let your fear of being judged stop you from asking for help when you need it. Sometimes asking for help is the bravest move you can make. You don`t have to go it alone.");
    reveal_strlit("Replace every negative thought with a positive one. A positive mind is stronger than a negative thought.");
}

/// The quote at `index` of the catalogue.
pub fn quote(index: usize) -> (text: &'static str)
    requires
        index < QUOTES_QUANTITY,
    ensures
        text@ == quote_text(index as int),
{
    if index == 0 {
        "You create your own opportunities. Success doesn`t just come and find you-you have to go out and get it."
    } else if index == 1 {
        "Never break your promises. Keep every promise; it makes you credible."
    } else if index == 2 {
        "You are never as stuck as you think you are. Success is not final, and failure isn`t fatal."
    } else if index == 3 {
        "Happiness is a choice. For every minute you are angry, you lose 60 seconds of your own happiness."
    } else if index == 4 {
        "Habits develop into character. Character is the result of our mental attitude and the way we spend our time."
    } else if index == 5 {
        "Be happy with who you are. Being happy doesn`t mean everything is perfect but that you have decided to look beyond the imperfections."
    } else if index == 6 {
        "Don`t seek happiness-create it. You don`t need life to go your way to be happy."
    } else if index == 7 {
        "If you want to be happy, stop complaining. If you want happiness, stop complaining about how your life isn`t what you want and make it into what you do want."
    } else if index == 8 {
        "Asking for help is a sign of strength. Don`t let your fear of being judged stop you from asking for help when you need it. Sometimes asking for help is the bravest move you can make. You don`t have to go it alone."
    } else {
        "Replace every negative thought with a positive one. A positive mind is stronger than a negative thought."
    }
}

} // verus!
