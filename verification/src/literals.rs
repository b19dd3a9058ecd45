use vstd::prelude::*;

verus! {

/// What the string literals that the block format is made of hold, character by character.
pub proof fn lemma_literals()
    ensures
        "type"@.len() == 4,
        "type"@[0] == 't',
        "type"@[1] == 'y',
        "type"@[2] == 'p',
        "type"@[3] == 'e',
        "id"@.len() == 2,
        "id"@[0] == 'i',
        "id"@[1] == 'd',
        "text"@.len() == 4,
        "text"@[0] == 't',
        "text"@[1] == 'e',
        "text"@[2] == 'x',
        "text"@[3] == 't',
        "style"@.len() == 5,
        "style"@[0] == 's',
        "style"@[1] == 't',
        "style"@[2] == 'y',
        "style"@[3] == 'l',
        "style"@[4] == 'e',
        "bold"@.len() == 4,
        "bold"@[0] == 'b',
        "bold"@[1] == 'o',
        "bold"@[2] == 'l',
        "bold"@[3] == 'd',
        "italic"@.len() == 6,
        "italic"@[0] == 'i',
        "italic"@[1] == 't',
        "italic"@[2] == 'a',
        "italic"@[3] == 'l',
        "italic"@[4] == 'i',
        "italic"@[5] == 'c',
        "code"@.len() == 4,
        "code"@[0] == 'c',
        "code"@[1] == 'o',
        "code"@[2] == 'd',
        "code"@[3] == 'e',
        "url"@.len() == 3,
        "url"@[0] == 'u',
        "url"@[1] == 'r',
        "url"@[2] == 'l',
        "blocks"@.len() == 6,
        "blocks"@[0] == 'b',
        "blocks"@[1] == 'l',
        "blocks"@[2] == 'o',
        "blocks"@[3] == 'c',
        "blocks"@[4] == 'k',
        "blocks"@[5] == 's',
        "hierarchy"@.len() == 9,
        "hierarchy"@[0] == 'h',
        "hierarchy"@[1] == 'i',
        "hierarchy"@[2] == 'e',
        "hierarchy"@[3] == 'r',
        "hierarchy"@[4] == 'a',
        "hierarchy"@[5] == 'r',
        "hierarchy"@[6] == 'c',
        "hierarchy"@[7] == 'h',
        "hierarchy"@[8] == 'y',
        "key"@.len() == 3,
        "key"@[0] == 'k',
        "key"@[1] == 'e',
        "key"@[2] == 'y',
        "val"@.len() == 3,
        "val"@[0] == 'v',
        "val"@[1] == 'a',
        "val"@[2] == 'l',
        "tokens"@.len() == 6,
        "tokens"@[0] == 't',
        "tokens"@[1] == 'o',
        "tokens"@[2] == 'k',
        "tokens"@[3] == 'e',
        "tokens"@[4] == 'n',
        "tokens"@[5] == 's',
        "language"@.len() == 8,
        "language"@[0] == 'l',
        "language"@[1] == 'a',
        "language"@[2] == 'n',
        "language"@[3] == 'g',
        "language"@[4] == 'u',
        "language"@[5] == 'a',
        "language"@[6] == 'g',
        "language"@[7] == 'e',
        "checked"@.len() == 7,
        "checked"@[0] == 'c',
        "checked"@[1] == 'h',
        "checked"@[2] == 'e',
        "checked"@[3] == 'c',
        "checked"@[4] == 'k',
        "checked"@[5] == 'e',
        "checked"@[6] == 'd',
        "calloutType"@.len() == 11,
        "calloutType"@[0] == 'c',
        "calloutType"@[1] == 'a',
        "calloutType"@[2] == 'l',
        "calloutType"@[3] == 'l',
        "calloutType"@[4] == 'o',
        "calloutType"@[5] == 'u',
        "calloutType"@[6] == 't',
        "calloutType"@[7] == 'T',
        "calloutType"@[8] == 'y',
        "calloutType"@[9] == 'p',
        "calloutType"@[10] == 'e',
        "number"@.len() == 6,
        "number"@[0] == 'n',
        "number"@[1] == 'u',
        "number"@[2] == 'm',
        "number"@[3] == 'b',
        "number"@[4] == 'e',
        "number"@[5] == 'r',
        "entityTitle"@.len() == 11,
        "entityTitle"@[0] == 'e',
        "entityTitle"@[1] == 'n',
        "entityTitle"@[2] == 't',
        "entityTitle"@[3] == 'i',
        "entityTitle"@[4] == 't',
        "entityTitle"@[5] == 'y',
        "entityTitle"@[6] == 'T',
        "entityTitle"@[7] == 'i',
        "entityTitle"@[8] == 't',
        "entityTitle"@[9] == 'l',
        "entityTitle"@[10] == 'e',
        "entity"@.len() == 6,
        "entity"@[0] == 'e',
        "entity"@[1] == 'n',
        "entity"@[2] == 't',
        "entity"@[3] == 'i',
        "entity"@[4] == 't',
        "entity"@[5] == 'y',
        "TextToken"@.len() == 9,
        "TextToken"@[0] == 'T',
        "TextToken"@[1] == 'e',
        "TextToken"@[2] == 'x',
        "TextToken"@[3] == 't',
        "TextToken"@[4] == 'T',
        "TextToken"@[5] == 'o',
        "TextToken"@[6] == 'k',
        "TextToken"@[7] == 'e',
        "TextToken"@[8] == 'n',
        "CodeToken"@.len() == 9,
        "CodeToken"@[0] == 'C',
        "CodeToken"@[1] == 'o',
        "CodeToken"@[2] == 'd',
        "CodeToken"@[3] == 'e',
        "CodeToken"@[4] == 'T',
        "CodeToken"@[5] == 'o',
        "CodeToken"@[6] == 'k',
        "CodeToken"@[7] == 'e',
        "CodeToken"@[8] == 'n',
        "LinkToken"@.len() == 9,
        "LinkToken"@[0] == 'L',
        "LinkToken"@[1] == 'i',
        "LinkToken"@[2] == 'n',
        "LinkToken"@[3] == 'k',
        "LinkToken"@[4] == 'T',
        "LinkToken"@[5] == 'o',
        "LinkToken"@[6] == 'k',
        "LinkToken"@[7] == 'e',
        "LinkToken"@[8] == 'n',
        "TextBlock"@.len() == 9,
        "TextBlock"@[0] == 'T',
        "TextBlock"@[1] == 'e',
        "TextBlock"@[2] == 'x',
        "TextBlock"@[3] == 't',
        "TextBlock"@[4] == 'B',
        "TextBlock"@[5] == 'l',
        "TextBlock"@[6] == 'o',
        "TextBlock"@[7] == 'c',
        "TextBlock"@[8] == 'k',
        "CodeBlock"@.len() == 9,
        "CodeBlock"@[0] == 'C',
        "CodeBlock"@[1] == 'o',
        "CodeBlock"@[2] == 'd',
        "CodeBlock"@[3] == 'e',
        "CodeBlock"@[4] == 'B',
        "CodeBlock"@[5] == 'l',
        "CodeBlock"@[6] == 'o',
        "CodeBlock"@[7] == 'c',
        "CodeBlock"@[8] == 'k',
        "EntityBlock"@.len() == 11,
        "EntityBlock"@[0] == 'E',
        "EntityBlock"@[1] == 'n',
        "EntityBlock"@[2] == 't',
        "EntityBlock"@[3] == 'i',
        "EntityBlock"@[4] == 't',
        "EntityBlock"@[5] == 'y',
        "EntityBlock"@[6] == 'B',
        "EntityBlock"@[7] == 'l',
        "EntityBlock"@[8] == 'o',
        "EntityBlock"@[9] == 'c',
        "EntityBlock"@[10] == 'k',
        "ChecklistBlock"@.len() == 14,
        "ChecklistBlock"@[0] == 'C',
        "ChecklistBlock"@[1] == 'h',
        "ChecklistBlock"@[2] == 'e',
        "ChecklistBlock"@[3] == 'c',
        "ChecklistBlock"@[4] == 'k',
        "ChecklistBlock"@[5] == 'l',
        "ChecklistBlock"@[6] == 'i',
        "ChecklistBlock"@[7] == 's',
        "ChecklistBlock"@[8] == 't',
        "ChecklistBlock"@[9] == 'B',
        "ChecklistBlock"@[10] == 'l',
        "ChecklistBlock"@[11] == 'o',
        "ChecklistBlock"@[12] == 'c',
        "ChecklistBlock"@[13] == 'k',
        "BulletListBlock"@.len() == 15,
        "BulletListBlock"@[0] == 'B',
        "BulletListBlock"@[1] == 'u',
        "BulletListBlock"@[2] == 'l',
        "BulletListBlock"@[3] == 'l',
        "BulletListBlock"@[4] == 'e',
        "BulletListBlock"@[5] == 't',
        "BulletListBlock"@[6] == 'L',
        "BulletListBlock"@[7] == 'i',
        "BulletListBlock"@[8] == 's',
        "BulletListBlock"@[9] == 't',
        "BulletListBlock"@[10] == 'B',
        "BulletListBlock"@[11] == 'l',
        "BulletListBlock"@[12] == 'o',
        "BulletListBlock"@[13] == 'c',
        "BulletListBlock"@[14] == 'k',
        "NumberedListBlock"@.len() == 17,
        "NumberedListBlock"@[0] == 'N',
        "NumberedListBlock"@[1] == 'u',
        "NumberedListBlock"@[2] == 'm',
        "NumberedListBlock"@[3] == 'b',
        "NumberedListBlock"@[4] == 'e',
        "NumberedListBlock"@[5] == 'r',
        "NumberedListBlock"@[6] == 'e',
        "NumberedListBlock"@[7] == 'd',
        "NumberedListBlock"@[8] == 'L',
        "NumberedListBlock"@[9] == 'i',
        "NumberedListBlock"@[10] == 's',
        "NumberedListBlock"@[11] == 't',
        "NumberedListBlock"@[12] == 'B',
        "NumberedListBlock"@[13] == 'l',
        "NumberedListBlock"@[14] == 'o',
        "NumberedListBlock"@[15] == 'c',
        "NumberedListBlock"@[16] == 'k',
        "QuoteBlock"@.len() == 10,
        "QuoteBlock"@[0] == 'Q',
        "QuoteBlock"@[1] == 'u',
        "QuoteBlock"@[2] == 'o',
        "QuoteBlock"@[3] == 't',
        "QuoteBlock"@[4] == 'e',
        "QuoteBlock"@[5] == 'B',
        "QuoteBlock"@[6] == 'l',
        "QuoteBlock"@[7] == 'o',
        "QuoteBlock"@[8] == 'c',
        "QuoteBlock"@[9] == 'k',
        "CalloutBlock"@.len() == 12,
        "CalloutBlock"@[0] == 'C',
        "CalloutBlock"@[1] == 'a',
        "CalloutBlock"@[2] == 'l',
        "CalloutBlock"@[3] == 'l',
        "CalloutBlock"@[4] == 'o',
        "CalloutBlock"@[5] == 'u',
        "CalloutBlock"@[6] == 't',
        "CalloutBlock"@[7] == 'B',
        "CalloutBlock"@[8] == 'l',
        "CalloutBlock"@[9] == 'o',
        "CalloutBlock"@[10] == 'c',
        "CalloutBlock"@[11] == 'k',
        "ToggleBlock"@.len() == 11,
        "ToggleBlock"@[0] == 'T',
        "ToggleBlock"@[1] == 'o',
        "ToggleBlock"@[2] == 'g',
        "ToggleBlock"@[3] == 'g',
        "ToggleBlock"@[4] == 'l',
        "ToggleBlock"@[5] == 'e',
        "ToggleBlock"@[6] == 'B',
        "ToggleBlock"@[7] == 'l',
        "ToggleBlock"@[8] == 'o',
        "ToggleBlock"@[9] == 'c',
        "ToggleBlock"@[10] == 'k',
        "ImageBlock"@.len() == 10,
        "ImageBlock"@[0] == 'I',
        "ImageBlock"@[1] == 'm',
        "ImageBlock"@[2] == 'a',
        "ImageBlock"@[3] == 'g',
        "ImageBlock"@[4] == 'e',
        "ImageBlock"@[5] == 'B',
        "ImageBlock"@[6] == 'l',
        "ImageBlock"@[7] == 'o',
        "ImageBlock"@[8] == 'c',
        "ImageBlock"@[9] == 'k',
        "HorizontalLineBlock"@.len() == 19,
        "HorizontalLineBlock"@[0] == 'H',
        "HorizontalLineBlock"@[1] == 'o',
        "HorizontalLineBlock"@[2] == 'r',
        "HorizontalLineBlock"@[3] == 'i',
        "HorizontalLineBlock"@[4] == 'z',
        "HorizontalLineBlock"@[5] == 'o',
        "HorizontalLineBlock"@[6] == 'n',
        "HorizontalLineBlock"@[7] == 't',
        "HorizontalLineBlock"@[8] == 'a',
        "HorizontalLineBlock"@[9] == 'l',
        "HorizontalLineBlock"@[10] == 'L',
        "HorizontalLineBlock"@[11] == 'i',
        "HorizontalLineBlock"@[12] == 'n',
        "HorizontalLineBlock"@[13] == 'e',
        "HorizontalLineBlock"@[14] == 'B',
        "HorizontalLineBlock"@[15] == 'l',
        "HorizontalLineBlock"@[16] == 'o',
        "HorizontalLineBlock"@[17] == 'c',
        "HorizontalLineBlock"@[18] == 'k',
        "SimpleTableBlock"@.len() == 16,
        "SimpleTableBlock"@[0] == 'S',
        "SimpleTableBlock"@[1] == 'i',
        "SimpleTableBlock"@[2] == 'm',
        "SimpleTableBlock"@[3] == 'p',
        "SimpleTableBlock"@[4] == 'l',
        "SimpleTableBlock"@[5] == 'e',
        "SimpleTableBlock"@[6] == 'T',
        "SimpleTableBlock"@[7] == 'a',
        "SimpleTableBlock"@[8] == 'b',
        "SimpleTableBlock"@[9] == 'l',
        "SimpleTableBlock"@[10] == 'e',
        "SimpleTableBlock"@[11] == 'B',
        "SimpleTableBlock"@[12] == 'l',
        "SimpleTableBlock"@[13] == 'o',
        "SimpleTableBlock"@[14] == 'c',
        "SimpleTableBlock"@[15] == 'k',
        "H1"@.len() == 2,
        "H1"@[0] == 'H',
        "H1"@[1] == '1',
        "H2"@.len() == 2,
        "H2"@[0] == 'H',
        "H2"@[1] == '2',
        "H3"@.len() == 2,
        "H3"@[0] == 'H',
        "H3"@[1] == '3',
        "H4"@.len() == 2,
        "H4"@[0] == 'H',
        "H4"@[1] == '4',
        "Base"@.len() == 4,
        "Base"@[0] == 'B',
        "Base"@[1] == 'a',
        "Base"@[2] == 's',
        "Base"@[3] == 'e',
        "***"@.len() == 3,
        "***"@[0] == '*',
        "***"@[1] == '*',
        "***"@[2] == '*',
        "**"@.len() == 2,
        "**"@[0] == '*',
        "**"@[1] == '*',
        "*"@.len() == 1,
        "*"@[0] == '*',
        "`"@.len() == 1,
        "`"@[0] == '`',
        "["@.len() == 1,
        "["@[0] == '[',
        "]("@.len() == 2,
        "]("@[0] == ']',
        "]("@[1] == '(',
        ")"@.len() == 1,
        ")"@[0] == ')',
        "\n"@.len() == 1,
        "\n"@[0] == '\n',
        ""@.len() == 0,
        "0"@.len() == 1,
        "0"@[0] == '0',
        "```"@.len() == 3,
        "```"@[0] == '`',
        "```"@[1] == '`',
        "```"@[2] == '`',
        "\n```"@.len() == 4,
        "\n```"@[0] == '\n',
        "\n```"@[1] == '`',
        "\n```"@[2] == '`',
        "\n```"@[3] == '`',
{
    reveal_strlit("```");
    reveal_strlit("\n```");
    reveal_strlit("type");
    reveal_strlit("id");
    reveal_strlit("text");
    reveal_strlit("style");
    reveal_strlit("bold");
    reveal_strlit("italic");
    reveal_strlit("code");
    reveal_strlit("url");
    reveal_strlit("blocks");
    reveal_strlit("hierarchy");
    reveal_strlit("key");
    reveal_strlit("val");
    reveal_strlit("tokens");
    reveal_strlit("language");
    reveal_strlit("checked");
    reveal_strlit("calloutType");
    reveal_strlit("number");
    reveal_strlit("entityTitle");
    reveal_strlit("entity");
    reveal_strlit("TextToken");
    reveal_strlit("CodeToken");
    reveal_strlit("LinkToken");
    reveal_strlit("TextBlock");
    reveal_strlit("CodeBlock");
    reveal_strlit("EntityBlock");
    reveal_strlit("ChecklistBlock");
    reveal_strlit("BulletListBlock");
    reveal_strlit("NumberedListBlock");
    reveal_strlit("QuoteBlock");
    reveal_strlit("CalloutBlock");
    reveal_strlit("ToggleBlock");
    reveal_strlit("ImageBlock");
    reveal_strlit("HorizontalLineBlock");
    reveal_strlit("SimpleTableBlock");
    reveal_strlit("H1");
    reveal_strlit("H2");
    reveal_strlit("H3");
    reveal_strlit("H4");
    reveal_strlit("Base");
    reveal_strlit("***");
    reveal_strlit("**");
    reveal_strlit("*");
    reveal_strlit("`");
    reveal_strlit("[");
    reveal_strlit("](");
    reveal_strlit(")");
    reveal_strlit("\n");
    reveal_strlit("");
    reveal_strlit("0");
    assert("type"@.len() == 4);
    assert("id"@.len() == 2);
    assert("text"@.len() == 4);
    assert("style"@.len() == 5);
    assert("bold"@.len() == 4);
    assert("italic"@.len() == 6);
    assert("code"@.len() == 4);
    assert("url"@.len() == 3);
    assert("blocks"@.len() == 6);
    assert("hierarchy"@.len() == 9);
    assert("key"@.len() == 3);
    assert("val"@.len() == 3);
    assert("tokens"@.len() == 6);
    assert("language"@.len() == 8);
    assert("checked"@.len() == 7);
    assert("calloutType"@.len() == 11);
    assert("number"@.len() == 6);
    assert("entityTitle"@.len() == 11);
    assert("entity"@.len() == 6);
    assert("TextToken"@.len() == 9);
    assert("CodeToken"@.len() == 9);
    assert("LinkToken"@.len() == 9);
    assert("TextBlock"@.len() == 9);
    assert("CodeBlock"@.len() == 9);
    assert("EntityBlock"@.len() == 11);
    assert("ChecklistBlock"@.len() == 14);
    assert("BulletListBlock"@.len() == 15);
    assert("NumberedListBlock"@.len() == 17);
    assert("QuoteBlock"@.len() == 10);
    assert("CalloutBlock"@.len() == 12);
    assert("ToggleBlock"@.len() == 11);
    assert("ImageBlock"@.len() == 10);
    assert("HorizontalLineBlock"@.len() == 19);
    assert("SimpleTableBlock"@.len() == 16);
    assert("H1"@.len() == 2);
    assert("H2"@.len() == 2);
    assert("H3"@.len() == 2);
    assert("H4"@.len() == 2);
    assert("Base"@.len() == 4);
    assert("***"@.len() == 3);
    assert("**"@.len() == 2);
    assert("*"@.len() == 1);
    assert("`"@.len() == 1);
    assert("["@.len() == 1);
    assert("]("@.len() == 2);
    assert(")"@.len() == 1);
    assert("\n"@.len() == 1);
    assert(""@.len() == 0);
    assert("0"@.len() == 1);
    assert("```"@.len() == 3);
    assert("\n```"@.len() == 4);
}

} // verus!
