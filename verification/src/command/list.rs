use vstd::prelude::*;
use vstd::string::StringExecFns;

verus! {

/// The characters of each of a sequence of strings.
pub open spec fn item_texts(items: Seq<String>) -> Seq<Seq<char>> {
    items.map_values(|s: String| s@)
}

/// Lines one below the other: a line feed between neighbours, none at the
/// end.
pub open spec fn stacked(lines: Seq<Seq<char>>) -> Seq<char>
    decreases lines.len(),
{
    if lines.len() == 0 {
        Seq::empty()
    } else if lines.len() == 1 {
        lines[0]
    } else {
        stacked(lines.drop_last()) + "\n"@ + lines.last()
    }
}

/// What a list is shown as: the message for the empty list if there are no
/// items; else the title, if there is one, and the items, each on a line of
/// its own.
pub open spec fn list_text(title: Option<Seq<char>>, items: Seq<Seq<char>>, empty_message: Seq<char>) -> Seq<
    char,
> {
    if items.len() == 0 {
        empty_message
    } else {
        match title {
            Some(t) => stacked(seq![t] + items),
            None => stacked(items),
        }
    }
}

/// Builds the text that shows a list to a person.
pub fn build_list(title: Option<&str>, items: &Vec<String>, empty_message: &str) -> (text: String)
    ensures
        text@ == list_text(
            match title {
                Some(t) => Some(t@),
                None => None,
            },
            item_texts(items@),
            empty_message@,
        ),
{
    if items.len() == 0 {
        return String::from_str(empty_message);
    }
    let ghost lines = match title {
        Some(t) => seq![t@] + item_texts(items@),
        None => item_texts(items@),
    };
    let ghost shift: int = match title {
        Some(_) => 1,
        None => 0,
    };
    let mut text = match title {
        Some(t) => String::from_str(t).concat("\n").concat(items[0].as_str()),
        None => String::from_str(items[0].as_str()),
    };
    proof {
        let first = lines.take(shift + 1);
        assert(first.last() == items@[0]@);
        if shift == 1 {
            assert(first.drop_last() =~= seq![lines[0]]);
            assert(stacked(seq![lines[0]]) == lines[0]);
        }
        assert(text@ =~= stacked(first));
    }
    let mut i: usize = 1;
    while i < items.len()
        invariant
            1 <= i <= items.len(),
            0 <= shift <= 1,
            lines.len() == items.len() + shift,
            forall|k: int| 0 <= k < items.len() ==> lines[k + shift] == (#[trigger] items@[k])@,
            text@ == stacked(lines.take(i + shift)),
        decreases items.len() - i,
    {
        proof {
            let next = lines.take(i + shift + 1);
            assert(next.drop_last() =~= lines.take(i + shift));
            assert(next.last() == items@[i as int]@);
        }
        text.append("\n");
        text.append(items[i].as_str());
        assert(text@ =~= stacked(lines.take(i + shift + 1)));
        i += 1;
    }
    assert(lines.take(items.len() + shift) =~= lines);
    text
}

} // verus!
